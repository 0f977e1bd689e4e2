use bevy_entitiles::handle::{BufferId, TilemapId};
use bevy_entitiles::math::{IVec2, UVec2};
use bevy_entitiles::render::chunk::{
    GpuBufferInfo, GpuMesh, MeshTileData, MeshUpdate, UploadError, UploadedBuffers,
};
use bevy_entitiles::render::extract::{ExtractedTile, ExtractedTilemap};
use bevy_entitiles::render::storage::{
    local_index, RenderChunkStorage, TilemapChunks, UnloadRenderChunk,
};
use bevy_entitiles::tilemap::map::TilemapType;
use bevy_entitiles::tilemap::tile::{TileColor, TileLayer, TileTexture};

fn tilemap(id: u64) -> ExtractedTilemap {
    ExtractedTilemap {
        id: TilemapId(id),
        ty: TilemapType::Isometric,
        chunk_size: 4,
        texture: None,
        z_index: 3,
    }
}

fn tile(x: i32, y: i32) -> ExtractedTile {
    ExtractedTile {
        index: IVec2 { x, y },
        texture: TileTexture::Static(vec![TileLayer { texture_index: 1, flip: 0 }]),
        color: TileColor { r: 1, g: 2, b: 3, a: 4 },
    }
}

fn coordinates(storage: &RenderChunkStorage, id: u64) -> Vec<IVec2> {
    storage.chunks_of(TilemapId(id)).iter().map(|c| c.index()).collect()
}

fn ok(v: u64, i: u64) -> Result<UploadedBuffers, UploadError> {
    Ok(UploadedBuffers { vertex_buffer: BufferId(v), index_buffer: BufferId(i) })
}

#[test]
fn a_new_storage_knows_no_tilemap() {
    let storage = RenderChunkStorage::new();
    assert!(storage.get_chunks(TilemapId(1)).is_none());
    assert!(storage.chunks_of(TilemapId(1)).is_empty());
}

#[test]
fn local_index_is_the_place_inside_the_chunk() {
    assert_eq!(local_index(IVec2 { x: 0, y: 0 }, 4), UVec2 { x: 0, y: 0 });
    assert_eq!(local_index(IVec2 { x: 5, y: 11 }, 4), UVec2 { x: 1, y: 3 });
    assert_eq!(local_index(IVec2 { x: -1, y: -4 }, 4), UVec2 { x: 3, y: 0 });
    assert_eq!(local_index(IVec2 { x: -5, y: -6 }, 4), UVec2 { x: 3, y: 2 });
    assert_eq!(local_index(IVec2 { x: i32::MIN, y: i32::MAX }, 16), UVec2 { x: 0, y: 15 });
}

#[test]
fn get_or_create_makes_a_chunk_once() {
    let mut storage = RenderChunkStorage::new();
    let map = tilemap(1);
    {
        let chunk = storage.get_or_create(&map, IVec2 { x: 5, y: 1 });
        assert_eq!(chunk.index(), IVec2 { x: 1, y: 0 });
        assert!(chunk.dirty_mesh());
        assert_eq!(chunk.ty(), TilemapType::Isometric);
        chunk.set_visible(false);
    }
    {
        // Another tile of the same chunk.
        let chunk = storage.get_or_create(&map, IVec2 { x: 7, y: 3 });
        assert_eq!(chunk.index(), IVec2 { x: 1, y: 0 });
        assert!(!chunk.visible());
    }
    assert_eq!(storage.get_chunks(TilemapId(1)).map(|c| c.len()), Some(1));
    storage.get_or_create(&map, IVec2 { x: 8, y: 3 });
    assert_eq!(storage.get_chunks(TilemapId(1)).map(|c| c.len()), Some(2));
    assert!(storage.get_chunks(TilemapId(2)).is_none());
}

#[test]
fn chunks_are_drawn_in_the_reverse_of_insertion() {
    let mut storage = RenderChunkStorage::new();
    let map = tilemap(1);
    storage.set_tile(&map, &tile(0, 0));
    storage.set_tile(&map, &tile(4, 0));
    storage.set_tile(&map, &tile(0, 4));
    storage.set_tile(&map, &tile(-1, -1));
    // A second tile in a chunk that is there moves nothing.
    storage.set_tile(&map, &tile(1, 1));
    let expected = vec![
        IVec2 { x: -1, y: -1 },
        IVec2 { x: 0, y: 1 },
        IVec2 { x: 1, y: 0 },
        IVec2 { x: 0, y: 0 },
    ];
    assert_eq!(coordinates(&storage, 1), expected);
    // Asking again gives the same.
    assert_eq!(coordinates(&storage, 1), expected);
    assert_eq!(coordinates(&storage, 1), expected);

    let stored = storage.get_chunks(TilemapId(1)).expect("tilemap 1 has chunks");
    let inserted: Vec<IVec2> = (0..stored.len()).map(|i| stored.chunk(i).index()).collect();
    let mut reversed = inserted.clone();
    reversed.reverse();
    assert_eq!(reversed, expected);
    let direct: Vec<IVec2> = stored.draw_order().iter().map(|c| c.index()).collect();
    assert_eq!(direct, expected);
}

#[test]
fn rebuilding_does_not_change_the_draw_order() {
    let mut storage = RenderChunkStorage::new();
    let map = tilemap(1);
    storage.set_tile(&map, &tile(0, 0));
    storage.set_tile(&map, &tile(4, 0));
    let before = coordinates(&storage, 1);
    let uploads = storage.prepare_chunks(&map);
    assert_eq!(uploads, vec![IVec2 { x: 0, y: 0 }, IVec2 { x: 1, y: 0 }]);
    assert_eq!(coordinates(&storage, 1), before);
    assert_eq!(before, vec![IVec2 { x: 1, y: 0 }, IVec2 { x: 0, y: 0 }]);
}

#[test]
fn tilemaps_keep_their_chunks_apart() {
    let mut storage = RenderChunkStorage::new();
    storage.set_tile(&tilemap(1), &tile(0, 0));
    storage.set_tile(&tilemap(2), &tile(9, 9));
    storage.set_tile(&tilemap(1), &tile(4, 4));
    assert_eq!(coordinates(&storage, 1), vec![IVec2 { x: 1, y: 1 }, IVec2 { x: 0, y: 0 }]);
    assert_eq!(coordinates(&storage, 2), vec![IVec2 { x: 2, y: 2 }]);
    assert!(coordinates(&storage, 3).is_empty());
}

#[test]
fn set_tile_puts_the_tile_into_its_cell() {
    let mut storage = RenderChunkStorage::new();
    let map = tilemap(1);
    storage.set_tile(&map, &tile(-3, 6));
    let chunks = storage.get_chunks(TilemapId(1)).expect("tilemap 1 has chunks");
    let chunk = chunks.get(IVec2 { x: -1, y: 1 }).expect("the chunk was made");
    // Tile (-3, 6) is column 1 of row 2 in chunk (-1, 1).
    let slot = 2 * 4 + 1;
    for (i, cell) in chunk.tiles().iter().enumerate() {
        if i == slot {
            assert_eq!(*cell, Some(MeshTileData::from_tile(&tile(-3, 6))));
        } else {
            assert_eq!(*cell, None);
        }
    }
    assert!(chunks.get(IVec2 { x: 0, y: 0 }).is_none());
    assert_eq!(chunks.position(IVec2 { x: -1, y: 1 }), Some(0));
    assert_eq!(chunks.position(IVec2 { x: 1, y: 1 }), None);
}

#[test]
fn remove_tile_empties_the_cell() {
    let mut storage = RenderChunkStorage::new();
    let map = tilemap(1);
    storage.set_tile(&map, &tile(1, 1));
    assert_eq!(storage.prepare_chunks(&map), vec![IVec2 { x: 0, y: 0 }]);
    assert_eq!(storage.finish_upload(TilemapId(1), IVec2 { x: 0, y: 0 }, ok(1, 2)), Ok(()));
    storage.remove_tile(&map, IVec2 { x: 1, y: 1 });
    {
        let chunk = storage.get_or_create(&map, IVec2 { x: 0, y: 0 });
        assert!(chunk.dirty_mesh());
        assert!(chunk.tiles().iter().all(|t| t.is_none()));
        assert!(chunk.gpu_mesh().is_some());
    }
    assert!(storage.prepare_chunks(&map).is_empty());
    assert_eq!(storage.get_or_create(&map, IVec2 { x: 0, y: 0 }).gpu_mesh(), None);
    // No chunk holds this place: nothing is made.
    storage.remove_tile(&map, IVec2 { x: 40, y: 40 });
    assert_eq!(storage.get_chunks(TilemapId(1)).map(|c| c.len()), Some(1));
    // No such tilemap: nothing is made.
    storage.remove_tile(&tilemap(9), IVec2 { x: 0, y: 0 });
    assert!(storage.get_chunks(TilemapId(9)).is_none());
}

#[test]
fn removing_a_chunk_that_is_not_there_changes_nothing() {
    let mut storage = RenderChunkStorage::new();
    assert!(storage.remove_chunk(TilemapId(1), IVec2 { x: 0, y: 0 }).is_none());
    assert!(storage.get_chunks(TilemapId(1)).is_none());

    let map = tilemap(1);
    storage.set_tile(&map, &tile(0, 0));
    storage.set_tile(&map, &tile(4, 0));
    let before = coordinates(&storage, 1);
    assert!(storage.remove_chunk(TilemapId(1), IVec2 { x: 7, y: 7 }).is_none());
    assert!(storage.remove_chunk(TilemapId(2), IVec2 { x: 0, y: 0 }).is_none());
    assert_eq!(coordinates(&storage, 1), before);
    assert_eq!(before.len(), 2);
    assert!(storage.get_chunks(TilemapId(2)).is_none());
    let chunk = storage.get_or_create(&map, IVec2 { x: 0, y: 0 });
    assert_eq!(chunk.tiles()[0], Some(MeshTileData::from_tile(&tile(0, 0))));
}

#[test]
fn removing_a_chunk_hands_it_out_and_keeps_the_order() {
    let mut storage = RenderChunkStorage::new();
    let map = tilemap(1);
    storage.set_tile(&map, &tile(0, 0));
    storage.set_tile(&map, &tile(4, 0));
    storage.set_tile(&map, &tile(8, 0));
    let removed = storage.remove_chunk(TilemapId(1), IVec2 { x: 1, y: 0 });
    let removed = removed.expect("the chunk was there");
    assert_eq!(removed.index(), IVec2 { x: 1, y: 0 });
    assert_eq!(removed.tiles()[0], Some(MeshTileData::from_tile(&tile(4, 0))));
    assert_eq!(coordinates(&storage, 1), vec![IVec2 { x: 2, y: 0 }, IVec2 { x: 0, y: 0 }]);
    assert!(storage.remove_chunk(TilemapId(1), IVec2 { x: 1, y: 0 }).is_none());
    // A chunk that is made again comes last, so it is drawn first.
    storage.set_tile(&map, &tile(4, 0));
    assert_eq!(
        coordinates(&storage, 1),
        vec![IVec2 { x: 1, y: 0 }, IVec2 { x: 2, y: 0 }, IVec2 { x: 0, y: 0 }]
    );
}

#[test]
fn prepare_asks_for_uploads_of_dirty_chunks_with_tiles() {
    let mut storage = RenderChunkStorage::new();
    let map = tilemap(1);
    assert!(storage.prepare_chunks(&map).is_empty());
    storage.set_tile(&map, &tile(0, 0));
    storage.get_or_create(&map, IVec2 { x: 4, y: 0 });
    storage.set_tile(&map, &tile(8, 0));
    assert_eq!(storage.prepare_chunks(&map), vec![IVec2 { x: 0, y: 0 }, IVec2 { x: 2, y: 0 }]);
    {
        let chunks = storage.get_chunks(TilemapId(1)).expect("tilemap 1 has chunks");
        assert!(chunks.chunk(0).staged());
        assert!(!chunks.chunk(1).staged());
        assert!(!chunks.chunk(1).dirty_mesh());
        assert!(chunks.chunk(2).staged());
    }
    assert_eq!(storage.finish_upload(TilemapId(1), IVec2 { x: 0, y: 0 }, ok(1, 2)), Ok(()));
    assert_eq!(
        storage.finish_upload(TilemapId(1), IVec2 { x: 2, y: 0 }, Err(UploadError::OutOfMemory)),
        Err(UploadError::OutOfMemory)
    );
    // Only the chunk whose upload failed is tried again.
    assert_eq!(storage.prepare_chunks(&map), vec![IVec2 { x: 2, y: 0 }]);
    assert_eq!(storage.finish_upload(TilemapId(1), IVec2 { x: 2, y: 0 }, ok(3, 4)), Ok(()));
    assert!(storage.prepare_chunks(&map).is_empty());
    let chunks = storage.get_chunks(TilemapId(1)).expect("tilemap 1 has chunks");
    assert_eq!(
        chunks.chunk(0).gpu_mesh(),
        Some(GpuMesh {
            vertex_buffer: BufferId(1),
            vertex_count: 4,
            buffer_info: GpuBufferInfo::Indexed { buffer: BufferId(2), count: 6 },
        })
    );
    assert_eq!(chunks.chunk(1).gpu_mesh(), None);
    assert_eq!(chunks.chunk(2).gpu_mesh().map(|g| g.vertex_buffer), Some(BufferId(3)));
}

#[test]
fn an_upload_for_a_chunk_that_is_gone_is_stale() {
    let mut storage = RenderChunkStorage::new();
    let map = tilemap(1);
    storage.set_tile(&map, &tile(0, 0));
    assert_eq!(storage.prepare_chunks(&map), vec![IVec2 { x: 0, y: 0 }]);
    assert!(storage.remove_chunk(TilemapId(1), IVec2 { x: 0, y: 0 }).is_some());
    assert_eq!(
        storage.finish_upload(TilemapId(1), IVec2 { x: 0, y: 0 }, ok(1, 2)),
        Err(UploadError::Stale)
    );
    assert_eq!(
        storage.finish_upload(TilemapId(5), IVec2 { x: 0, y: 0 }, ok(1, 2)),
        Err(UploadError::Stale)
    );
    assert_eq!(storage.get_chunks(TilemapId(1)).map(|c| c.len()), Some(0));
}

#[test]
fn unloading_takes_the_listed_chunks_out() {
    let mut storage = RenderChunkStorage::new();
    let map = tilemap(1);
    storage.set_tile(&map, &tile(0, 0));
    storage.set_tile(&map, &tile(4, 0));
    storage.set_tile(&map, &tile(8, 0));
    storage.set_tile(&map, &tile(12, 0));
    let unload = UnloadRenderChunk(vec![
        IVec2 { x: 2, y: 0 },
        IVec2 { x: 9, y: 9 },
        IVec2 { x: 0, y: 0 },
        IVec2 { x: 2, y: 0 },
    ]);
    storage.unload_chunks(TilemapId(1), &unload);
    assert_eq!(coordinates(&storage, 1), vec![IVec2 { x: 3, y: 0 }, IVec2 { x: 1, y: 0 }]);
    storage.unload_chunks(TilemapId(2), &unload);
    assert!(storage.get_chunks(TilemapId(2)).is_none());
    storage.unload_chunks(TilemapId(1), &UnloadRenderChunk(vec![]));
    assert_eq!(coordinates(&storage, 1).len(), 2);
}

#[test]
fn removing_a_tilemap_takes_all_its_chunks() {
    let mut storage = RenderChunkStorage::new();
    storage.set_tile(&tilemap(1), &tile(0, 0));
    storage.set_tile(&tilemap(1), &tile(4, 0));
    storage.set_tile(&tilemap(2), &tile(0, 0));
    let gone = storage.remove_tilemap(TilemapId(1)).expect("tilemap 1 was there");
    assert_eq!(gone.len(), 2);
    assert_eq!(gone.chunk(0).index(), IVec2 { x: 0, y: 0 });
    assert_eq!(gone.chunk(1).index(), IVec2 { x: 1, y: 0 });
    assert!(storage.get_chunks(TilemapId(1)).is_none());
    assert!(storage.remove_tilemap(TilemapId(1)).is_none());
    assert_eq!(coordinates(&storage, 2), vec![IVec2 { x: 0, y: 0 }]);
}

#[test]
fn chunks_can_be_changed_in_place() {
    let mut storage = RenderChunkStorage::new();
    let map = tilemap(1);
    assert!(storage.get_chunks_mut(TilemapId(1)).is_none());
    storage.set_tile(&map, &tile(0, 0));
    storage.set_tile(&map, &tile(4, 0));
    {
        let chunks = storage.get_chunks_mut(TilemapId(1)).expect("tilemap 1 has chunks");
        assert!(chunks.get_mut(IVec2 { x: 3, y: 3 }).is_none());
        let chunk = chunks.get_mut(IVec2 { x: 1, y: 0 }).expect("the chunk is there");
        chunk.set_visible(false);
        assert_eq!(chunk.update_mesh(), MeshUpdate::Upload);
    }
    let chunks = storage.get_chunks(TilemapId(1)).expect("tilemap 1 has chunks");
    assert!(chunks.chunk(0).visible());
    assert!(!chunks.chunk(0).staged());
    assert!(!chunks.chunk(1).visible());
    assert!(chunks.chunk(1).staged());
}

#[test]
fn a_chunk_list_by_itself() {
    let mut chunks = TilemapChunks::new();
    assert_eq!(chunks.len(), 0);
    assert!(chunks.draw_order().is_empty());
    assert!(chunks.remove(IVec2 { x: 0, y: 0 }).is_none());
    let map = tilemap(1);
    chunks.get_or_create(IVec2 { x: 0, y: 0 }, &map);
    chunks.set_tile(&map, &tile(5, 5));
    assert_eq!(chunks.len(), 2);
    assert_eq!(chunks.prepare(), vec![IVec2 { x: 1, y: 1 }]);
    assert_eq!(chunks.finish_upload(IVec2 { x: 0, y: 0 }, ok(1, 2)), Err(UploadError::Stale));
    assert_eq!(chunks.finish_upload(IVec2 { x: 1, y: 1 }, ok(1, 2)), Ok(()));
    chunks.remove_tile(IVec2 { x: 5, y: 5 }, 4);
    assert!(chunks.chunk(1).dirty_mesh());
    chunks.unload(&UnloadRenderChunk(vec![IVec2 { x: 0, y: 0 }]));
    assert_eq!(chunks.len(), 1);
    assert_eq!(chunks.chunk(0).index(), IVec2 { x: 1, y: 1 });
    let removed = chunks.remove(IVec2 { x: 1, y: 1 }).expect("the chunk is there");
    assert_eq!(removed.index(), IVec2 { x: 1, y: 1 });
    assert_eq!(chunks.len(), 0);
}

#[test]
fn the_default_storage_is_empty() {
    let mut storage = RenderChunkStorage::default();
    assert!(storage.get_chunks(TilemapId(1)).is_none());
    assert!(storage.is_sized_for(&tilemap(1)));
    storage.set_tile(&tilemap(1), &tile(0, 0));
    assert!(storage.is_sized_for(&tilemap(1)));
    let mut other = tilemap(1);
    other.chunk_size = 8;
    assert!(!storage.is_sized_for(&other));
    other.id = TilemapId(2);
    assert!(storage.is_sized_for(&other));
    let chunks = storage.get_chunks(TilemapId(1)).expect("tilemap 1 has chunks");
    assert!(chunks.is_sized(4));
    assert!(!chunks.is_sized(5));
}
