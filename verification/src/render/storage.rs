//! Where the render chunks of all tilemaps are kept.

use vstd::prelude::*;
use crate::handle::TilemapId;
use crate::math::{lemma_floor_div_bounds, IVec2, UVec2};
use crate::render::chunk::{
    chunk_index, chunk_index_of, slot_of, tile_data, valid_chunk_size, ChunkView, MeshUpdate,
    TilemapRenderChunk, UploadError, UploadedBuffers,
};
use crate::render::extract::{ExtractedTile, ExtractedTilemap};

verus! {

/// Whether one of the chunks has this coordinate.
pub open spec fn has_chunk(chunks: Seq<ChunkView>, index: IVec2) -> bool {
    exists|k: int| 0 <= k < chunks.len() && (#[trigger] chunks[k]).index == index
}

/// Whether `k` is the place of the first chunk with this coordinate.
pub open spec fn is_chunk_position(chunks: Seq<ChunkView>, index: IVec2, k: int) -> bool {
    &&& 0 <= k < chunks.len()
    &&& chunks[k].index == index
    &&& forall|j: int| 0 <= j < k ==> (#[trigger] chunks[j]).index != index
}

/// The place of the first chunk with this coordinate.
pub open spec fn chunk_position(chunks: Seq<ChunkView>, index: IVec2) -> int {
    choose|k: int| is_chunk_position(chunks, index, k)
}

/// The invariant of the chunks of one tilemap: every chunk is well formed,
/// and no two of them have the same coordinate.
pub open spec fn chunks_wf(chunks: Seq<ChunkView>) -> bool {
    &&& forall|i: int| 0 <= i < chunks.len() ==> (#[trigger] chunks[i]).wf()
    &&& forall|i: int, j: int|
        0 <= i < j < chunks.len() ==> (#[trigger] chunks[i]).index != (#[trigger] chunks[j]).index
}

/// The order in which chunks are drawn: the chunk that came last is drawn
/// first.
pub open spec fn draw_order(chunks: Seq<ChunkView>) -> Seq<ChunkView> {
    chunks.reverse()
}

/// The chunks after each of them went through `update_mesh`.
pub open spec fn prepared(chunks: Seq<ChunkView>) -> Seq<ChunkView> {
    Seq::new(chunks.len(), |i: int| chunks[i].update_mesh())
}

/// The coordinates of the chunks whose `update_mesh` asks for an upload, in
/// the order of the chunks.
pub open spec fn upload_requests(chunks: Seq<ChunkView>) -> Seq<IVec2>
    decreases chunks.len(),
{
    if chunks.len() == 0 {
        Seq::empty()
    } else if chunks.last().update_action() == MeshUpdate::Upload {
        upload_requests(chunks.drop_last()).push(chunks.last().index)
    } else {
        upload_requests(chunks.drop_last())
    }
}

/// Whether every chunk has this side.
pub open spec fn chunks_sized(chunks: Seq<ChunkView>, size: u32) -> bool {
    forall|i: int| 0 <= i < chunks.len() ==> (#[trigger] chunks[i]).size == size
}

/// The place of a tile inside its chunk.
pub open spec fn local_index_of(tile_index: IVec2, size: u32) -> UVec2 {
    UVec2 {
        x: (tile_index.x as int % size as int) as u32,
        y: (tile_index.y as int % size as int) as u32,
    }
}

/// The chunks after a tile was put into the chunk that holds its place. That
/// chunk is made first where it is not there yet.
pub open spec fn with_tile(
    chunks: Seq<ChunkView>,
    tilemap: ExtractedTilemap,
    tile: ExtractedTile,
) -> Seq<ChunkView> {
    let size = tilemap.chunk_size;
    let index = chunk_index_of(tile.index, size);
    let slot = slot_of(size, local_index_of(tile.index, size));
    if has_chunk(chunks, index) {
        let k = chunk_position(chunks, index);
        chunks.update(k, chunks[k].with_cell(slot, Some(tile_data(tile))))
    } else {
        chunks.push(ChunkView::fresh(tile.index, tilemap).with_cell(slot, Some(tile_data(tile))))
    }
}

/// The chunks after the cell at `tile_index` was emptied. Where no chunk
/// holds that place nothing changes.
pub open spec fn without_tile(chunks: Seq<ChunkView>, tile_index: IVec2, size: u32) -> Seq<
    ChunkView,
> {
    let index = chunk_index_of(tile_index, size);
    let slot = slot_of(size, local_index_of(tile_index, size));
    if has_chunk(chunks, index) {
        let k = chunk_position(chunks, index);
        chunks.update(k, chunks[k].with_cell(slot, None))
    } else {
        chunks
    }
}

/// The chunks after the outcome of an upload reached the chunk with this
/// coordinate.
pub open spec fn with_upload(
    chunks: Seq<ChunkView>,
    index: IVec2,
    outcome: Result<UploadedBuffers, UploadError>,
) -> Seq<ChunkView> {
    if has_chunk(chunks, index) {
        let k = chunk_position(chunks, index);
        chunks.update(k, chunks[k].finish_upload(outcome))
    } else {
        chunks
    }
}

/// What the chunk with this coordinate answers to the outcome of an upload.
/// A chunk that is gone waits for nothing.
pub open spec fn upload_answer(
    chunks: Seq<ChunkView>,
    index: IVec2,
    outcome: Result<UploadedBuffers, UploadError>,
) -> Result<(), UploadError> {
    if has_chunk(chunks, index) {
        chunks[chunk_position(chunks, index)].upload_result(outcome)
    } else {
        Err(UploadError::Stale)
    }
}

proof fn lemma_first_before(chunks: Seq<ChunkView>, index: IVec2, k: int)
    requires
        0 <= k < chunks.len(),
        chunks[k].index == index,
    ensures
        exists|f: int| is_chunk_position(chunks, index, f),
    decreases k,
{
    if forall|j: int| 0 <= j < k ==> (#[trigger] chunks[j]).index != index {
        assert(is_chunk_position(chunks, index, k));
    } else {
        let j = choose|j: int| 0 <= j < k && (#[trigger] chunks[j]).index == index;
        lemma_first_before(chunks, index, j);
    }
}

/// Among the chunks with a coordinate there is a first.
pub proof fn lemma_has_chunk(chunks: Seq<ChunkView>, index: IVec2)
    requires
        has_chunk(chunks, index),
    ensures
        is_chunk_position(chunks, index, chunk_position(chunks, index)),
{
    let k = choose|k: int| 0 <= k < chunks.len() && (#[trigger] chunks[k]).index == index;
    lemma_first_before(chunks, index, k);
}

/// A first place is the only first place.
pub proof fn lemma_chunk_position(chunks: Seq<ChunkView>, index: IVec2, k: int)
    requires
        is_chunk_position(chunks, index, k),
    ensures
        has_chunk(chunks, index),
        chunk_position(chunks, index) == k,
{
    let c = chunk_position(chunks, index);
    assert(is_chunk_position(chunks, index, c));
    if c < k {
        assert(chunks[c].index != index);
    }
    if k < c {
        assert(chunks[k].index != index);
    }
}

/// Where no two chunks share a coordinate, any place with the coordinate is
/// the first.
pub proof fn lemma_chunk_position_unique(chunks: Seq<ChunkView>, index: IVec2, k: int)
    requires
        chunks_wf(chunks),
        0 <= k < chunks.len(),
        chunks[k].index == index,
    ensures
        has_chunk(chunks, index),
        chunk_position(chunks, index) == k,
{
    assert forall|j: int| 0 <= j < k implies (#[trigger] chunks[j]).index != index by {
        assert(chunks[j].index != chunks[k].index);
    }
    lemma_chunk_position(chunks, index, k);
}

/// Chunks are drawn in the reverse of the order in which they were made: of
/// two chunks, the one made later is drawn earlier.
pub proof fn lemma_draw_order(chunks: Seq<ChunkView>)
    ensures
        draw_order(chunks).len() == chunks.len(),
        forall|i: int|
            0 <= i < chunks.len() ==> #[trigger] draw_order(chunks)[i] == chunks[chunks.len() - 1
                - i],
        forall|i: int, j: int|
            0 <= i < j < chunks.len() ==> draw_order(chunks)[chunks.len() - 1 - j] == chunks[j]
                && draw_order(chunks)[chunks.len() - 1 - i] == chunks[i],
{
}

/// A chunk that was just made is drawn first, and the others after it as
/// before.
pub proof fn lemma_draw_order_push(chunks: Seq<ChunkView>, chunk: ChunkView)
    ensures
        draw_order(chunks.push(chunk)) == seq![chunk] + draw_order(chunks),
{
    assert(draw_order(chunks.push(chunk)) =~= seq![chunk] + draw_order(chunks));
}

/// Taking a chunk out leaves the others in the order in which they were
/// drawn before.
pub proof fn lemma_draw_order_remove(chunks: Seq<ChunkView>, k: int)
    requires
        0 <= k < chunks.len(),
    ensures
        draw_order(chunks.remove(k)) == draw_order(chunks).remove(chunks.len() - 1 - k),
{
    assert(draw_order(chunks.remove(k)) =~= draw_order(chunks).remove(chunks.len() - 1 - k));
}

/// Rebuilding meshes moves no chunk: the chunks keep their coordinates and
/// the order in which they are drawn.
pub proof fn lemma_draw_order_prepared(chunks: Seq<ChunkView>)
    ensures
        draw_order(prepared(chunks)).len() == draw_order(chunks).len(),
        forall|i: int|
            0 <= i < chunks.len() ==> (#[trigger] draw_order(prepared(chunks))[i]) == draw_order(
                chunks,
            )[i].update_mesh(),
        forall|i: int|
            0 <= i < chunks.len() ==> (#[trigger] draw_order(prepared(chunks))[i]).index
                == draw_order(chunks)[i].index,
{
}

/// A new chunk whose coordinate no other chunk has keeps the chunks well
/// formed.
pub proof fn lemma_push_keeps_wf(chunks: Seq<ChunkView>, chunk: ChunkView)
    requires
        chunks_wf(chunks),
        chunk.wf(),
        !has_chunk(chunks, chunk.index),
    ensures
        chunks_wf(chunks.push(chunk)),
        is_chunk_position(chunks.push(chunk), chunk.index, chunks.len() as int),
{
    let after = chunks.push(chunk);
    assert forall|i: int| 0 <= i < chunks.len() implies (#[trigger] chunks[i]).index
        != chunk.index by {
        if chunks[i].index == chunk.index {
            assert(has_chunk(chunks, chunk.index));
        }
    }
    assert forall|i: int, j: int| 0 <= i < j < after.len() implies (#[trigger] after[i]).index != (
    #[trigger] after[j]).index by {
        assert(after[i] == chunks[i]);
        if j < chunks.len() {
            assert(after[j] == chunks[j]);
        }
    }
    assert forall|j: int| 0 <= j < chunks.len() implies (#[trigger] after[j]).index
        != chunk.index by {
        assert(after[j] == chunks[j]);
    }
}

/// A chunk that changes but stays well formed and keeps its coordinate keeps
/// the chunks well formed, and is found where it was.
pub proof fn lemma_update_keeps_wf(chunks: Seq<ChunkView>, k: int, chunk: ChunkView)
    requires
        chunks_wf(chunks),
        0 <= k < chunks.len(),
        chunk.wf(),
        chunk.index == chunks[k].index,
    ensures
        chunks_wf(chunks.update(k, chunk)),
        chunk_position(chunks.update(k, chunk), chunk.index) == k,
        chunk_position(chunks, chunk.index) == k,
{
    let after = chunks.update(k, chunk);
    assert forall|i: int, j: int| 0 <= i < j < after.len() implies (#[trigger] after[i]).index != (
    #[trigger] after[j]).index by {
        assert(after[i].index == chunks[i].index);
        assert(after[j].index == chunks[j].index);
    }
    lemma_chunk_position_unique(after, chunk.index, k);
    lemma_chunk_position_unique(chunks, chunk.index, k);
}

/// The views of a row of chunks.
pub open spec fn chunk_views(chunks: Seq<TilemapRenderChunk>) -> Seq<ChunkView> {
    Seq::new(chunks.len(), |i: int| chunks[i]@)
}

/// Computes the place of a tile inside its chunk.
pub fn local_index(tile_index: IVec2, size: u32) -> (local: UVec2)
    requires
        valid_chunk_size(size),
    ensures
        local == local_index_of(tile_index, size),
        local.x < size,
        local.y < size,
{
    let index = chunk_index(tile_index, size);
    proof {
        lemma_floor_div_bounds(tile_index.x as int, size as int);
        lemma_floor_div_bounds(tile_index.y as int, size as int);
        vstd::arithmetic::div_mod::lemma_fundamental_div_mod(tile_index.x as int, size as int);
        vstd::arithmetic::div_mod::lemma_fundamental_div_mod(tile_index.y as int, size as int);
        assert((size as int) * (tile_index.x as int / size as int) == (tile_index.x as int
            / size as int) * (size as int)) by (nonlinear_arith);
        assert((size as int) * (tile_index.y as int / size as int) == (tile_index.y as int
            / size as int) * (size as int)) by (nonlinear_arith);
    }
    let s: i64 = size as i64;
    proof {
        let cx = index.x as int;
        let cy = index.y as int;
        assert(-0x8000_0000 * 0xffff_ffff <= cx * s <= 0x7fff_ffff * 0xffff_ffff)
            by (nonlinear_arith)
            requires
                -0x8000_0000 <= cx <= 0x7fff_ffff,
                0 <= s <= 0xffff_ffff,
        ;
        assert(-0x8000_0000 * 0xffff_ffff <= cy * s <= 0x7fff_ffff * 0xffff_ffff)
            by (nonlinear_arith)
            requires
                -0x8000_0000 <= cy <= 0x7fff_ffff,
                0 <= s <= 0xffff_ffff,
        ;
    }
    let x: i64 = tile_index.x as i64 - index.x as i64 * s;
    let y: i64 = tile_index.y as i64 - index.y as i64 * s;
    UVec2 { x: x as u32, y: y as u32 }
}

/// The chunks of one tilemap, in the order in which they were made.
#[derive(Clone, Debug)]
pub struct TilemapChunks {
    chunks: Vec<TilemapRenderChunk>,
}

impl View for TilemapChunks {
    type V = Seq<ChunkView>;

    closed spec fn view(&self) -> Seq<ChunkView> {
        chunk_views(self.chunks@)
    }
}

impl TilemapChunks {
    /// No chunks.
    pub fn new() -> (chunks: TilemapChunks)
        ensures
            chunks@ == Seq::<ChunkView>::empty(),
    {
        let chunks = TilemapChunks { chunks: Vec::new() };
        proof {
            assert(chunks@ =~= Seq::<ChunkView>::empty());
        }
        chunks
    }

    /// The number of chunks.
    pub fn len(&self) -> (n: usize)
        ensures
            n == self@.len(),
    {
        self.chunks.len()
    }

    /// The chunk that was made as number `i`.
    pub fn chunk(&self, i: usize) -> (chunk: &TilemapRenderChunk)
        requires
            i < self@.len(),
        ensures
            chunk@ == self@[i as int],
    {
        &self.chunks[i]
    }

    /// The place of the first chunk with this coordinate.
    pub fn position(&self, index: IVec2) -> (r: Option<usize>)
        ensures
            match r {
                Some(k) => is_chunk_position(self@, index, k as int),
                None => !has_chunk(self@, index),
            },
            r is Some <==> has_chunk(self@, index),
            r matches Some(k) ==> k == chunk_position(self@, index),
    {
        let mut i: usize = 0;
        while i < self.chunks.len()
            invariant
                i <= self.chunks@.len(),
                forall|j: int| 0 <= j < i ==> (#[trigger] self@[j]).index != index,
            decreases self.chunks@.len() - i,
        {
            if self.chunks[i].index() == index {
                proof {
                    lemma_chunk_position(self@, index, i as int);
                }
                return Some(i);
            }
            i = i + 1;
        }
        None
    }

    /// The chunk with this coordinate, if there is one.
    pub fn get(&self, index: IVec2) -> (r: Option<&TilemapRenderChunk>)
        ensures
            match r {
                Some(chunk) => has_chunk(self@, index) && chunk@ == self@[chunk_position(
                    self@,
                    index,
                )],
                None => !has_chunk(self@, index),
            },
    {
        match self.position(index) {
            Some(k) => Some(&self.chunks[k]),
            None => None,
        }
    }

    /// The chunk with this coordinate, to be changed in place.
    pub fn get_mut(&mut self, index: IVec2) -> (r: Option<&mut TilemapRenderChunk>)
        ensures
            match r {
                Some(chunk) => {
                    &&& has_chunk(old(self)@, index)
                    &&& chunk@ == old(self)@[chunk_position(old(self)@, index)]
                    &&& final(self)@ == old(self)@.update(
                        chunk_position(old(self)@, index),
                        final(chunk)@,
                    )
                },
                None => !has_chunk(old(self)@, index) && final(self)@ == old(self)@,
            },
    {
        match self.position(index) {
            Some(k) => {
                let chunk = &mut self.chunks[k];
                proof {
                    assert(after_borrow(self)@ =~= old(self)@.update(k as int, final(chunk)@));
                }
                Some(chunk)
            },
            None => None,
        }
    }

    /// The chunk that holds the tile at `tile_index`. Where there is none yet
    /// it is made, as `TilemapRenderChunk::from_index` makes it, and put
    /// behind the others.
    pub fn get_or_create(&mut self, tile_index: IVec2, tilemap: &ExtractedTilemap) -> (chunk:
        &mut TilemapRenderChunk)
        requires
            valid_chunk_size(tilemap.chunk_size),
        ensures
            ({
                let index = chunk_index_of(tile_index, tilemap.chunk_size);
                if has_chunk(old(self)@, index) {
                    let k = chunk_position(old(self)@, index);
                    &&& chunk@ == old(self)@[k]
                    &&& final(self)@ == old(self)@.update(k, final(chunk)@)
                } else {
                    &&& chunk@ == ChunkView::fresh(tile_index, *tilemap)
                    &&& chunk@.wf()
                    &&& final(self)@ == old(self)@.push(final(chunk)@)
                }
            }),
    {
        let index = chunk_index(tile_index, tilemap.chunk_size);
        let k = match self.position(index) {
            Some(k) => k,
            None => {
                self.chunks.push(TilemapRenderChunk::from_index(tile_index, tilemap));
                proof {
                    assert(self@ =~= old(self)@.push(ChunkView::fresh(tile_index, *tilemap)));
                }
                self.chunks.len() - 1
            },
        };
        let ghost mid = self@;
        let chunk = &mut self.chunks[k];
        proof {
            assert(after_borrow(self)@ =~= mid.update(k as int, final(chunk)@));
            if !has_chunk(old(self)@, index) {
                assert(mid.update(k as int, final(chunk)@) =~= old(self)@.push(final(chunk)@));
            }
        }
        chunk
    }

    /// Takes the chunk with this coordinate out. The others keep their order.
    /// Where there is no such chunk nothing changes.
    pub fn remove(&mut self, index: IVec2) -> (r: Option<TilemapRenderChunk>)
        ensures
            match r {
                Some(chunk) => {
                    &&& has_chunk(old(self)@, index)
                    &&& chunk@ == old(self)@[chunk_position(old(self)@, index)]
                    &&& final(self)@ == old(self)@.remove(chunk_position(old(self)@, index))
                },
                None => !has_chunk(old(self)@, index) && final(self)@ == old(self)@,
            },
    {
        match self.position(index) {
            Some(k) => {
                let chunk = self.chunks.remove(k);
                proof {
                    assert(self@ =~= old(self)@.remove(k as int));
                }
                Some(chunk)
            },
            None => None,
        }
    }

    /// Puts a tile into the chunk that holds its place, and makes that chunk
    /// first where it is not there yet.
    pub fn set_tile(&mut self, tilemap: &ExtractedTilemap, tile: &ExtractedTile)
        requires
            chunks_wf(old(self)@),
            valid_chunk_size(tilemap.chunk_size),
            chunks_sized(old(self)@, tilemap.chunk_size),
            tile.wf(),
        ensures
            final(self)@ == with_tile(old(self)@, *tilemap, *tile),
            chunks_wf(final(self)@),
            chunks_sized(final(self)@, tilemap.chunk_size),
    {
        let size = tilemap.chunk_size;
        let ghost index = chunk_index_of(tile.index, size);
        proof {
            if has_chunk(old(self)@, index) {
                lemma_has_chunk(old(self)@, index);
            }
        }
        let chunk = self.get_or_create(tile.index, tilemap);
        let local = local_index(tile.index, size);
        chunk.set_tile(local, tile);
        proof {
            if has_chunk(old(self)@, index) {
                lemma_has_chunk(old(self)@, index);
            } else {
                let before = old(self)@;
                assert forall|i: int| 0 <= i < before.len() implies (#[trigger] before[i]).index
                    != index by {
                    if before[i].index == index {
                        assert(has_chunk(before, index));
                    }
                }
            }
        }
    }

    /// Empties the cell at `tile_index`. Where no chunk holds that place
    /// nothing changes.
    pub fn remove_tile(&mut self, tile_index: IVec2, size: u32)
        requires
            chunks_wf(old(self)@),
            valid_chunk_size(size),
            chunks_sized(old(self)@, size),
        ensures
            final(self)@ == without_tile(old(self)@, tile_index, size),
            chunks_wf(final(self)@),
            chunks_sized(final(self)@, size),
    {
        let index = chunk_index(tile_index, size);
        let local = local_index(tile_index, size);
        match self.get_mut(index) {
            Some(chunk) => {
                proof {
                    lemma_has_chunk(old(self)@, index);
                }
                chunk.remove_tile(local);
            },
            None => {},
        }
    }

    /// Runs `update_mesh` on every chunk, and tells which chunks have
    /// staged a mesh that the host must upload.
    pub fn prepare(&mut self) -> (uploads: Vec<IVec2>)
        requires
            chunks_wf(old(self)@),
        ensures
            final(self)@ == prepared(old(self)@),
            uploads@ == upload_requests(old(self)@),
            chunks_wf(final(self)@),
    {
        let mut uploads: Vec<IVec2> = Vec::new();
        let mut i: usize = 0;
        proof {
            assert(old(self)@.take(0) =~= Seq::empty());
        }
        while i < self.chunks.len()
            invariant
                i <= self@.len(),
                self@.len() == old(self)@.len(),
                chunks_wf(old(self)@),
                forall|j: int| 0 <= j < i ==> (#[trigger] self@[j]) == old(self)@[j].update_mesh(),
                forall|j: int| i <= j < self@.len() ==> (#[trigger] self@[j]) == old(self)@[j],
                uploads@ == upload_requests(old(self)@.take(i as int)),
            decreases self@.len() - i,
        {
            let ghost before = self@;
            proof {
                assert(before[i as int] == old(self)@[i as int]);
                assert(old(self)@.take(i + 1).drop_last() =~= old(self)@.take(i as int));
                assert(old(self)@.take(i + 1).last() == old(self)@[i as int]);
            }
            let chunk = &mut self.chunks[i];
            let action = chunk.update_mesh();
            let index = chunk.index();
            proof {
                assert(self@ =~= before.update(i as int, before[i as int].update_mesh()));
            }
            match action {
                MeshUpdate::Upload => {
                    uploads.push(index);
                },
                _ => {},
            }
            i = i + 1;
        }
        proof {
            assert(old(self)@.take(i as int) =~= old(self)@);
            assert(self@ =~= prepared(old(self)@));
        }
        uploads
    }

    /// Hands the outcome of an upload to the chunk with this coordinate. A
    /// chunk that is gone by now answers `Stale`.
    pub fn finish_upload(
        &mut self,
        index: IVec2,
        outcome: Result<UploadedBuffers, UploadError>,
    ) -> (r: Result<(), UploadError>)
        requires
            chunks_wf(old(self)@),
        ensures
            final(self)@ == with_upload(old(self)@, index, outcome),
            r == upload_answer(old(self)@, index, outcome),
            chunks_wf(final(self)@),
    {
        match self.get_mut(index) {
            Some(chunk) => {
                proof {
                    lemma_has_chunk(old(self)@, index);
                }
                chunk.finish_upload(outcome)
            },
            None => Err(UploadError::Stale),
        }
    }

    /// Takes the chunks with the listed coordinates out. A coordinate that no
    /// chunk has is passed over.
    pub fn unload(&mut self, unload: &UnloadRenderChunk)
        ensures
            final(self)@ == without_chunks(old(self)@, unload.0@),
            chunks_wf(old(self)@) ==> chunks_wf(final(self)@),
    {
        let mut i: usize = 0;
        proof {
            assert(unload.0@.take(0) =~= Seq::empty());
        }
        while i < unload.0.len()
            invariant
                i <= unload.0@.len(),
                self@ == without_chunks(old(self)@, unload.0@.take(i as int)),
                chunks_wf(old(self)@) ==> chunks_wf(self@),
            decreases unload.0@.len() - i,
        {
            proof {
                assert(unload.0@.take(i + 1).drop_last() =~= unload.0@.take(i as int));
                assert(unload.0@.take(i + 1).last() == unload.0@[i as int]);
                if has_chunk(self@, unload.0@[i as int]) {
                    lemma_has_chunk(self@, unload.0@[i as int]);
                    if chunks_wf(self@) {
                        lemma_remove_keeps_wf(self@, chunk_position(self@, unload.0@[i as int]));
                    }
                }
            }
            let _ = self.remove(unload.0[i]);
            i = i + 1;
        }
        proof {
            assert(unload.0@.take(i as int) =~= unload.0@);
        }
    }

    /// Tells whether every chunk has this side.
    pub fn is_sized(&self, size: u32) -> (b: bool)
        ensures
            b == chunks_sized(self@, size),
    {
        let mut i: usize = 0;
        while i < self.chunks.len()
            invariant
                i <= self@.len(),
                forall|j: int| 0 <= j < i ==> (#[trigger] self@[j]).size == size,
            decreases self@.len() - i,
        {
            if self.chunks[i].size() != size {
                proof {
                    assert(self@[i as int].size != size);
                }
                return false;
            }
            i = i + 1;
        }
        true
    }

    /// The chunks in the order in which they are drawn, the last made first.
    pub fn draw_order(&self) -> (r: Vec<&TilemapRenderChunk>)
        ensures
            r@.len() == self@.len(),
            forall|i: int| 0 <= i < r@.len() ==> (#[trigger] r@[i])@ == draw_order(self@)[i],
    {
        let mut out: Vec<&TilemapRenderChunk> = Vec::new();
        let mut i: usize = self.chunks.len();
        while i > 0
            invariant
                i <= self.chunks@.len(),
                out@.len() == self.chunks@.len() - i,
                forall|j: int|
                    0 <= j < out@.len() ==> (#[trigger] out@[j])@ == self@[self@.len() - 1 - j],
            decreases i,
        {
            i = i - 1;
            out.push(&self.chunks[i]);
        }
        out
    }
}

/// The chunk coordinates of a tilemap that are to be unloaded.
#[derive(Clone, Debug)]
pub struct UnloadRenderChunk(pub Vec<IVec2>);

/// The chunks after those with the listed coordinates were taken out, one
/// coordinate after the other.
pub open spec fn without_chunks(chunks: Seq<ChunkView>, unload: Seq<IVec2>) -> Seq<ChunkView>
    decreases unload.len(),
{
    if unload.len() == 0 {
        chunks
    } else {
        let rest = without_chunks(chunks, unload.drop_last());
        if has_chunk(rest, unload.last()) {
            rest.remove(chunk_position(rest, unload.last()))
        } else {
            rest
        }
    }
}

/// Taking a chunk out leaves the others well formed.
pub proof fn lemma_remove_keeps_wf(chunks: Seq<ChunkView>, k: int)
    requires
        chunks_wf(chunks),
        0 <= k < chunks.len(),
    ensures
        chunks_wf(chunks.remove(k)),
{
    let rest = chunks.remove(k);
    assert forall|i: int| 0 <= i < rest.len() implies (#[trigger] rest[i]).wf() by {
        if i < k {
            assert(rest[i] == chunks[i]);
        } else {
            assert(rest[i] == chunks[i + 1]);
        }
    }
    assert forall|i: int, j: int| 0 <= i < j < rest.len() implies (#[trigger] rest[i]).index != (
    #[trigger] rest[j]).index by {
        let a = if i < k {
            i
        } else {
            i + 1
        };
        let b = if j < k {
            j
        } else {
            j + 1
        };
        assert(rest[i] == chunks[a]);
        assert(rest[j] == chunks[b]);
        assert(chunks[a].index != chunks[b].index);
    }
}

struct StorageEntry {
    tilemap: TilemapId,
    chunks: TilemapChunks,
}

spec fn has_entry(entries: Seq<StorageEntry>, tilemap: TilemapId) -> bool {
    exists|i: int| 0 <= i < entries.len() && (#[trigger] entries[i]).tilemap == tilemap
}

spec fn entry_position(entries: Seq<StorageEntry>, tilemap: TilemapId) -> int {
    choose|i: int| 0 <= i < entries.len() && (#[trigger] entries[i]).tilemap == tilemap
}

spec fn entries_inv(entries: Seq<StorageEntry>) -> bool {
    forall|i: int, j: int|
        0 <= i < j < entries.len() ==> (#[trigger] entries[i]).tilemap != (
        #[trigger] entries[j]).tilemap
}

spec fn entries_view(entries: Seq<StorageEntry>) -> Map<TilemapId, Seq<ChunkView>> {
    Map::new(
        |tilemap: TilemapId| has_entry(entries, tilemap),
        |tilemap: TilemapId| entries[entry_position(entries, tilemap)].chunks@,
    )
}

proof fn lemma_entry_at(entries: Seq<StorageEntry>, i: int)
    requires
        entries_inv(entries),
        0 <= i < entries.len(),
    ensures
        has_entry(entries, entries[i].tilemap),
        entry_position(entries, entries[i].tilemap) == i,
        entries_view(entries).contains_key(entries[i].tilemap),
        entries_view(entries)[entries[i].tilemap] == entries[i].chunks@,
{
    let p = entry_position(entries, entries[i].tilemap);
    assert(0 <= p < entries.len() && entries[p].tilemap == entries[i].tilemap);
    if p < i {
        assert(entries[p].tilemap != entries[i].tilemap);
    }
    if i < p {
        assert(entries[i].tilemap != entries[p].tilemap);
    }
}

proof fn lemma_entries_update(entries: Seq<StorageEntry>, i: int, entry: StorageEntry)
    requires
        entries_inv(entries),
        0 <= i < entries.len(),
        entry.tilemap == entries[i].tilemap,
    ensures
        entries_inv(entries.update(i, entry)),
        entries_view(entries.update(i, entry)) == entries_view(entries).insert(
            entry.tilemap,
            entry.chunks@,
        ),
{
    let after = entries.update(i, entry);
    assert forall|a: int, b: int| 0 <= a < b < after.len() implies (#[trigger] after[a]).tilemap
        != (#[trigger] after[b]).tilemap by {
        assert(after[a].tilemap == entries[a].tilemap);
        assert(after[b].tilemap == entries[b].tilemap);
    }
    let want = entries_view(entries).insert(entry.tilemap, entry.chunks@);
    assert forall|tilemap: TilemapId| entries_view(after).contains_key(tilemap)
        <==> want.contains_key(tilemap) by {
        if has_entry(after, tilemap) {
            let p = entry_position(after, tilemap);
            assert(entries[p].tilemap == tilemap);
        }
        if has_entry(entries, tilemap) {
            let p = entry_position(entries, tilemap);
            assert(after[p].tilemap == tilemap);
        }
        if tilemap == entry.tilemap {
            assert(after[i].tilemap == tilemap);
        }
    }
    assert forall|tilemap: TilemapId| entries_view(after).contains_key(tilemap) implies (
    #[trigger] entries_view(after)[tilemap]) == want[tilemap] by {
        let p = entry_position(after, tilemap);
        lemma_entry_at(after, p);
        assert(entries[p].tilemap == tilemap);
        lemma_entry_at(entries, p);
    }
    assert(entries_view(after) =~= want);
}

proof fn lemma_entries_push(entries: Seq<StorageEntry>, entry: StorageEntry)
    requires
        entries_inv(entries),
        !has_entry(entries, entry.tilemap),
    ensures
        entries_inv(entries.push(entry)),
        entries_view(entries.push(entry)) == entries_view(entries).insert(
            entry.tilemap,
            entry.chunks@,
        ),
{
    let after = entries.push(entry);
    assert forall|a: int, b: int| 0 <= a < b < after.len() implies (#[trigger] after[a]).tilemap
        != (#[trigger] after[b]).tilemap by {
        assert(after[a] == entries[a]);
        if b < entries.len() {
            assert(after[b] == entries[b]);
        } else {
            assert(entries[a].tilemap != entry.tilemap);
        }
    }
    let want = entries_view(entries).insert(entry.tilemap, entry.chunks@);
    assert forall|tilemap: TilemapId| entries_view(after).contains_key(tilemap)
        <==> want.contains_key(tilemap) by {
        if has_entry(after, tilemap) {
            let p = entry_position(after, tilemap);
            if p < entries.len() {
                assert(entries[p].tilemap == tilemap);
            }
        }
        if has_entry(entries, tilemap) {
            let p = entry_position(entries, tilemap);
            assert(after[p].tilemap == tilemap);
        }
        if tilemap == entry.tilemap {
            assert(after[entries.len() as int].tilemap == tilemap);
        }
    }
    assert forall|tilemap: TilemapId| entries_view(after).contains_key(tilemap) implies (
    #[trigger] entries_view(after)[tilemap]) == want[tilemap] by {
        let p = entry_position(after, tilemap);
        lemma_entry_at(after, p);
        if p < entries.len() {
            assert(entries[p].tilemap == tilemap);
            lemma_entry_at(entries, p);
        }
    }
    assert(entries_view(after) =~= want);
}

proof fn lemma_entries_remove(entries: Seq<StorageEntry>, i: int)
    requires
        entries_inv(entries),
        0 <= i < entries.len(),
    ensures
        entries_inv(entries.remove(i)),
        entries_view(entries.remove(i)) == entries_view(entries).remove(entries[i].tilemap),
{
    let after = entries.remove(i);
    let gone = entries[i].tilemap;
    assert forall|a: int| 0 <= a < after.len() implies #[trigger] after[a] == entries[if a < i {
        a
    } else {
        a + 1
    }] by {}
    assert forall|a: int, b: int| 0 <= a < b < after.len() implies (#[trigger] after[a]).tilemap
        != (#[trigger] after[b]).tilemap by {
        let x = if a < i {
            a
        } else {
            a + 1
        };
        let y = if b < i {
            b
        } else {
            b + 1
        };
        assert(after[a] == entries[x]);
        assert(after[b] == entries[y]);
        assert(entries[x].tilemap != entries[y].tilemap);
    }
    let want = entries_view(entries).remove(gone);
    assert forall|tilemap: TilemapId| entries_view(after).contains_key(tilemap)
        <==> want.contains_key(tilemap) by {
        if has_entry(after, tilemap) {
            let p = entry_position(after, tilemap);
            let x = if p < i {
                p
            } else {
                p + 1
            };
            assert(after[p] == entries[x]);
            assert(entries[x].tilemap == tilemap);
            if x < i {
                assert(entries[x].tilemap != entries[i].tilemap);
            } else {
                assert(entries[i].tilemap != entries[x].tilemap);
            }
        }
        if has_entry(entries, tilemap) && tilemap != gone {
            let p = entry_position(entries, tilemap);
            let x = if p < i {
                p
            } else {
                p - 1
            };
            assert(after[x] == entries[p]);
            assert(after[x].tilemap == tilemap);
        }
    }
    assert forall|tilemap: TilemapId| entries_view(after).contains_key(tilemap) implies (
    #[trigger] entries_view(after)[tilemap]) == want[tilemap] by {
        let p = entry_position(after, tilemap);
        lemma_entry_at(after, p);
        let x = if p < i {
            p
        } else {
            p + 1
        };
        assert(after[p] == entries[x]);
        lemma_entry_at(entries, x);
    }
    assert(entries_view(after) =~= want);
}

/// The render chunks of all tilemaps.
pub struct RenderChunkStorage {
    value: Vec<StorageEntry>,
}

impl View for RenderChunkStorage {
    type V = Map<TilemapId, Seq<ChunkView>>;

    closed spec fn view(&self) -> Map<TilemapId, Seq<ChunkView>> {
        entries_view(self.value@)
    }
}

impl Default for RenderChunkStorage {
    /// A storage without any tilemap.
    fn default() -> (storage: RenderChunkStorage)
        ensures
            storage@ == Map::<TilemapId, Seq<ChunkView>>::empty(),
            storage.wf(),
    {
        RenderChunkStorage::new()
    }
}

impl RenderChunkStorage {
    /// What the storage must keep to itself: it knows every tilemap once.
    pub closed spec fn inv(&self) -> bool {
        entries_inv(self.value@)
    }

    /// The invariant of the storage: the chunks of every tilemap are well
    /// formed, and no two chunks of a tilemap have the same coordinate.
    pub open spec fn wf(&self) -> bool {
        &&& self.inv()
        &&& forall|tilemap: TilemapId|
            self@.contains_key(tilemap) ==> chunks_wf(#[trigger] self@[tilemap])
    }

    /// The chunks of a tilemap in the order in which they were made; none for
    /// a tilemap that the storage does not know.
    pub open spec fn chunks(&self, tilemap: TilemapId) -> Seq<ChunkView> {
        if self@.contains_key(tilemap) {
            self@[tilemap]
        } else {
            Seq::empty()
        }
    }

    /// Whether every chunk of the tilemap has the chunk side of the tilemap.
    pub open spec fn sized_for(&self, tilemap: ExtractedTilemap) -> bool {
        chunks_sized(self.chunks(tilemap.id), tilemap.chunk_size)
    }

    /// A storage without any tilemap.
    pub fn new() -> (storage: RenderChunkStorage)
        ensures
            storage@ == Map::<TilemapId, Seq<ChunkView>>::empty(),
            storage.wf(),
    {
        let storage = RenderChunkStorage { value: Vec::new() };
        proof {
            assert(storage@ =~= Map::<TilemapId, Seq<ChunkView>>::empty());
        }
        storage
    }

    fn find(&self, tilemap: TilemapId) -> (r: Option<usize>)
        requires
            self.inv(),
        ensures
            match r {
                Some(i) => {
                    &&& i < self.value@.len()
                    &&& self.value@[i as int].tilemap == tilemap
                    &&& self@.contains_key(tilemap)
                    &&& self@[tilemap] == self.value@[i as int].chunks@
                },
                None => !has_entry(self.value@, tilemap) && !self@.contains_key(tilemap),
            },
    {
        let mut i: usize = 0;
        while i < self.value.len()
            invariant
                self.inv(),
                i <= self.value@.len(),
                forall|j: int| 0 <= j < i ==> (#[trigger] self.value@[j]).tilemap != tilemap,
            decreases self.value@.len() - i,
        {
            if self.value[i].tilemap == tilemap {
                proof {
                    lemma_entry_at(self.value@, i as int);
                }
                return Some(i);
            }
            i = i + 1;
        }
        None
    }

    /// Tells whether every chunk of the tilemap has the chunk side of the
    /// tilemap.
    pub fn is_sized_for(&self, tilemap: &ExtractedTilemap) -> (b: bool)
        requires
            self.inv(),
        ensures
            b == self.sized_for(*tilemap),
    {
        match self.find(tilemap.id) {
            Some(i) => self.value[i].chunks.is_sized(tilemap.chunk_size),
            None => true,
        }
    }

    /// The chunks of a tilemap, if the storage knows the tilemap.
    pub fn get_chunks(&self, tilemap: TilemapId) -> (r: Option<&TilemapChunks>)
        requires
            self.inv(),
        ensures
            match r {
                Some(chunks) => self@.contains_key(tilemap) && chunks@ == self@[tilemap],
                None => !self@.contains_key(tilemap),
            },
    {
        match self.find(tilemap) {
            Some(i) => Some(&self.value[i].chunks),
            None => None,
        }
    }

    /// The chunks of a tilemap, to be changed in place.
    pub fn get_chunks_mut(&mut self, tilemap: TilemapId) -> (r: Option<&mut TilemapChunks>)
        requires
            old(self).inv(),
        ensures
            final(self).inv(),
            match r {
                Some(chunks) => {
                    &&& old(self)@.contains_key(tilemap)
                    &&& chunks@ == old(self)@[tilemap]
                    &&& final(self)@ == old(self)@.insert(tilemap, final(chunks)@)
                },
                None => !old(self)@.contains_key(tilemap) && final(self)@ == old(self)@,
            },
    {
        match self.find(tilemap) {
            Some(i) => {
                let chunks = &mut self.value[i].chunks;
                proof {
                    let entry = StorageEntry { tilemap, chunks: *final(chunks) };
                    assert(after_borrow(self).value@ =~= old(self).value@.update(i as int, entry));
                    lemma_entries_update(old(self).value@, i as int, entry);
                }
                Some(chunks)
            },
            None => None,
        }
    }

    /// The chunks of a tilemap in the order in which they are drawn: from the
    /// back to the front, which is the last made first. A tilemap that the
    /// storage does not know has none.
    pub fn chunks_of(&self, tilemap: TilemapId) -> (r: Vec<&TilemapRenderChunk>)
        requires
            self.inv(),
        ensures
            r@.len() == self.chunks(tilemap).len(),
            forall|i: int|
                0 <= i < r@.len() ==> (#[trigger] r@[i])@ == draw_order(self.chunks(tilemap))[i],
    {
        match self.find(tilemap) {
            Some(i) => self.value[i].chunks.draw_order(),
            None => Vec::new(),
        }
    }

    /// The chunk of a tilemap that holds the tile at `tile_index`. Where there
    /// is none yet it is made, as `TilemapRenderChunk::from_index` makes it,
    /// and put behind the other chunks of the tilemap.
    pub fn get_or_create(&mut self, tilemap: &ExtractedTilemap, tile_index: IVec2) -> (chunk:
        &mut TilemapRenderChunk)
        requires
            old(self).inv(),
            valid_chunk_size(tilemap.chunk_size),
        ensures
            final(self).inv(),
            ({
                let before = old(self).chunks(tilemap.id);
                let index = chunk_index_of(tile_index, tilemap.chunk_size);
                if has_chunk(before, index) {
                    let k = chunk_position(before, index);
                    &&& chunk@ == before[k]
                    &&& final(self)@ == old(self)@.insert(
                        tilemap.id,
                        before.update(k, final(chunk)@),
                    )
                } else {
                    &&& chunk@ == ChunkView::fresh(tile_index, *tilemap)
                    &&& chunk@.wf()
                    &&& final(self)@ == old(self)@.insert(tilemap.id, before.push(final(chunk)@))
                }
            }),
    {
        let i = self.entry(tilemap.id);
        let ghost mid = self.value@;
        let chunk = self.value[i].chunks.get_or_create(tile_index, tilemap);
        proof {
            let entry = after_borrow(self).value@[i as int];
            assert(after_borrow(self).value@ =~= mid.update(i as int, entry));
            lemma_entries_update(mid, i as int, entry);
        }
        chunk
    }

    /// The place of a tilemap's entry, which is made empty where the storage
    /// does not know the tilemap yet.
    fn entry(&mut self, tilemap: TilemapId) -> (i: usize)
        requires
            old(self).inv(),
        ensures
            final(self).inv(),
            i < final(self).value@.len(),
            final(self).value@[i as int].tilemap == tilemap,
            final(self).value@[i as int].chunks@ == old(self).chunks(tilemap),
            final(self)@ == old(self)@.insert(tilemap, old(self).chunks(tilemap)),
    {
        match self.find(tilemap) {
            Some(i) => {
                proof {
                    assert(self@ =~= self@.insert(tilemap, self.chunks(tilemap)));
                }
                i
            },
            None => {
                let entry = StorageEntry { tilemap, chunks: TilemapChunks::new() };
                proof {
                    lemma_entries_push(self.value@, entry);
                }
                self.value.push(entry);
                self.value.len() - 1
            },
        }
    }

    /// Puts a tile into the chunk that holds its place, and makes that chunk
    /// first where it is not there yet.
    pub fn set_tile(&mut self, tilemap: &ExtractedTilemap, tile: &ExtractedTile)
        requires
            old(self).wf(),
            valid_chunk_size(tilemap.chunk_size),
            old(self).sized_for(*tilemap),
            tile.wf(),
        ensures
            final(self).wf(),
            final(self).sized_for(*tilemap),
            final(self)@ == old(self)@.insert(
                tilemap.id,
                with_tile(old(self).chunks(tilemap.id), *tilemap, *tile),
            ),
    {
        let i = self.entry(tilemap.id);
        let ghost mid = self.value@;
        proof {
            assert(chunks_wf(old(self).chunks(tilemap.id)));
        }
        self.value[i].chunks.set_tile(tilemap, tile);
        proof {
            assert(self.value@ =~= mid.update(i as int, self.value@[i as int]));
            lemma_entries_update(mid, i as int, self.value@[i as int]);
            assert(self@ =~= old(self)@.insert(
                tilemap.id,
                with_tile(old(self).chunks(tilemap.id), *tilemap, *tile),
            ));
        }
    }

    /// Empties the cell of a tilemap at `tile_index`. Where no chunk holds
    /// that place nothing changes.
    pub fn remove_tile(&mut self, tilemap: &ExtractedTilemap, tile_index: IVec2)
        requires
            old(self).wf(),
            valid_chunk_size(tilemap.chunk_size),
            old(self).sized_for(*tilemap),
        ensures
            final(self).wf(),
            final(self).sized_for(*tilemap),
            final(self)@ == (if old(self)@.contains_key(tilemap.id) {
                old(self)@.insert(
                    tilemap.id,
                    without_tile(old(self)@[tilemap.id], tile_index, tilemap.chunk_size),
                )
            } else {
                old(self)@
            }),
    {
        match self.find(tilemap.id) {
            Some(i) => {
                let ghost mid = self.value@;
                self.value[i].chunks.remove_tile(tile_index, tilemap.chunk_size);
                proof {
                    assert(self.value@ =~= mid.update(i as int, self.value@[i as int]));
                    lemma_entries_update(mid, i as int, self.value@[i as int]);
                }
            },
            None => {},
        }
    }

    /// Takes the chunk with this coordinate out of a tilemap. The other
    /// chunks keep their order. Where there is no such chunk, or no such
    /// tilemap, nothing changes.
    pub fn remove_chunk(&mut self, tilemap: TilemapId, index: IVec2) -> (r: Option<
        TilemapRenderChunk,
    >)
        requires
            old(self).inv(),
        ensures
            final(self).inv(),
            old(self).wf() ==> final(self).wf(),
            match r {
                Some(chunk) => {
                    let before = old(self).chunks(tilemap);
                    &&& old(self)@.contains_key(tilemap)
                    &&& has_chunk(before, index)
                    &&& chunk@ == before[chunk_position(before, index)]
                    &&& final(self)@ == old(self)@.insert(
                        tilemap,
                        before.remove(chunk_position(before, index)),
                    )
                },
                None => {
                    &&& !has_chunk(old(self).chunks(tilemap), index)
                    &&& final(self)@ == old(self)@
                },
            },
    {
        match self.find(tilemap) {
            Some(i) => {
                let ghost mid = self.value@;
                let r = self.value[i].chunks.remove(index);
                proof {
                    assert(self.value@ =~= mid.update(i as int, self.value@[i as int]));
                    lemma_entries_update(mid, i as int, self.value@[i as int]);
                    if r is Some {
                        lemma_has_chunk(old(self)@[tilemap], index);
                        if chunks_wf(old(self)@[tilemap]) {
                            lemma_remove_keeps_wf(
                                old(self)@[tilemap],
                                chunk_position(old(self)@[tilemap], index),
                            );
                        }
                    } else {
                        assert(self@ =~= old(self)@);
                    }
                }
                r
            },
            None => {
                proof {
                    assert(!has_chunk(Seq::<ChunkView>::empty(), index));
                }
                None
            },
        }
    }

    /// Takes the listed chunks out of a tilemap.
    pub fn unload_chunks(&mut self, tilemap: TilemapId, unload: &UnloadRenderChunk)
        requires
            old(self).inv(),
        ensures
            final(self).inv(),
            old(self).wf() ==> final(self).wf(),
            final(self)@ == (if old(self)@.contains_key(tilemap) {
                old(self)@.insert(tilemap, without_chunks(old(self)@[tilemap], unload.0@))
            } else {
                old(self)@
            }),
    {
        match self.find(tilemap) {
            Some(i) => {
                let ghost mid = self.value@;
                self.value[i].chunks.unload(unload);
                proof {
                    assert(self.value@ =~= mid.update(i as int, self.value@[i as int]));
                    lemma_entries_update(mid, i as int, self.value@[i as int]);
                }
            },
            None => {},
        }
    }

    /// Forgets a tilemap and hands out the chunks that it had.
    pub fn remove_tilemap(&mut self, tilemap: TilemapId) -> (r: Option<TilemapChunks>)
        requires
            old(self).inv(),
        ensures
            final(self).inv(),
            old(self).wf() ==> final(self).wf(),
            final(self)@ == old(self)@.remove(tilemap),
            match r {
                Some(chunks) => {
                    &&& old(self)@.contains_key(tilemap)
                    &&& chunks@ == old(self)@[tilemap]
                },
                None => !old(self)@.contains_key(tilemap),
            },
    {
        match self.find(tilemap) {
            Some(i) => {
                proof {
                    lemma_entries_remove(self.value@, i as int);
                }
                let entry = self.value.remove(i);
                Some(entry.chunks)
            },
            None => {
                proof {
                    assert(self@ =~= self@.remove(tilemap));
                }
                None
            },
        }
    }

    /// Rebuilds the meshes of the dirty chunks of a tilemap, and tells which
    /// chunks have staged a mesh that the host must upload. The outcome of
    /// each upload goes to `finish_upload`.
    pub fn prepare_chunks(&mut self, tilemap: &ExtractedTilemap) -> (uploads: Vec<IVec2>)
        requires
            old(self).wf(),
        ensures
            final(self).wf(),
            uploads@ == upload_requests(old(self).chunks(tilemap.id)),
            final(self)@ == (if old(self)@.contains_key(tilemap.id) {
                old(self)@.insert(tilemap.id, prepared(old(self)@[tilemap.id]))
            } else {
                old(self)@
            }),
    {
        match self.find(tilemap.id) {
            Some(i) => {
                let ghost mid = self.value@;
                let uploads = self.value[i].chunks.prepare();
                proof {
                    assert(self.value@ =~= mid.update(i as int, self.value@[i as int]));
                    lemma_entries_update(mid, i as int, self.value@[i as int]);
                }
                uploads
            },
            None => Vec::new(),
        }
    }

    /// Hands the outcome of an upload to the chunk of a tilemap with this
    /// coordinate. A chunk that is gone by now answers `Stale`.
    pub fn finish_upload(
        &mut self,
        tilemap: TilemapId,
        index: IVec2,
        outcome: Result<UploadedBuffers, UploadError>,
    ) -> (r: Result<(), UploadError>)
        requires
            old(self).wf(),
        ensures
            final(self).wf(),
            r == upload_answer(old(self).chunks(tilemap), index, outcome),
            final(self)@ == (if old(self)@.contains_key(tilemap) {
                old(self)@.insert(tilemap, with_upload(old(self)@[tilemap], index, outcome))
            } else {
                old(self)@
            }),
    {
        match self.find(tilemap) {
            Some(i) => {
                let ghost mid = self.value@;
                let r = self.value[i].chunks.finish_upload(index, outcome);
                proof {
                    assert(self.value@ =~= mid.update(i as int, self.value@[i as int]));
                    lemma_entries_update(mid, i as int, self.value@[i as int]);
                }
                r
            },
            None => {
                proof {
                    assert(!has_chunk(Seq::<ChunkView>::empty(), index));
                }
                Err(UploadError::Stale)
            },
        }
    }
}

} // verus!
