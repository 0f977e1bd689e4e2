use bevy_entitiles::handle::{
    BufferId, PipelineId, SamplerId, TextureHandle, TextureViewId, TilemapId, ViewId,
};
use bevy_entitiles::math::{IVec2, UVec2};
use bevy_entitiles::render::binding::{
    DeviceCommand, TextureResolution, TilemapBindGroups, TilemapViewBindGroup,
};
use bevy_entitiles::render::chunk::{UploadError, UploadedBuffers};
use bevy_entitiles::render::draw::{
    draw, BindGroupKey, DrawError, DrawItem, DrawTileMesh, PassCommand, SetPipeline,
    SetTilemapColorTextureBindGroup, SetTilemapUniformBindGroup, SetTilemapViewBindGroup,
};
use bevy_entitiles::render::extract::{ExtractedTile, ExtractedTilemap};
use bevy_entitiles::render::prepare::prepare;
use bevy_entitiles::render::queue::{queue, QueueView, VisibleTilemap};
use bevy_entitiles::render::storage::RenderChunkStorage;
use bevy_entitiles::tilemap::map::{
    FilterMode, TilemapTexture, TilemapTextureDescriptor, TilemapType,
};
use bevy_entitiles::tilemap::tile::{TileColor, TileLayer, TileTexture};

fn tilemap(id: u64, texture: Option<u64>) -> ExtractedTilemap {
    ExtractedTilemap {
        id: TilemapId(id),
        ty: TilemapType::Square,
        chunk_size: 4,
        texture: texture.map(|handle| TilemapTexture {
            texture: TextureHandle(handle),
            desc: TilemapTextureDescriptor {
                size: UVec2 { x: 64, y: 64 },
                tile_size: UVec2 { x: 16, y: 16 },
                filter_mode: FilterMode::Nearest,
            },
        }),
        z_index: 0,
    }
}

fn tile(x: i32, y: i32) -> ExtractedTile {
    ExtractedTile {
        index: IVec2 { x, y },
        texture: TileTexture::Static(vec![TileLayer { texture_index: 1, flip: 0 }]),
        color: TileColor { r: 0, g: 0, b: 0, a: 0 },
    }
}

fn item(map: ExtractedTilemap, pure_color: bool) -> DrawItem {
    DrawItem {
        tilemap: map,
        view: TilemapViewBindGroup { value: ViewId(9) },
        view_uniform_offset: 256,
        uniform_index: 64,
        pure_color,
    }
}

fn ok(v: u64, i: u64) -> Result<UploadedBuffers, UploadError> {
    Ok(UploadedBuffers { vertex_buffer: BufferId(v), index_buffer: BufferId(i) })
}

fn view_bound() -> PassCommand {
    PassCommand::SetBindGroup { index: 0, group: BindGroupKey::View(ViewId(9)), offset: Some(256) }
}

fn uniform_bound(id: u64) -> PassCommand {
    PassCommand::SetBindGroup {
        index: 1,
        group: BindGroupKey::TilemapUniform(TilemapId(id)),
        offset: Some(64),
    }
}

/// Three chunks of tilemap 1 with one, two and no tiles, all uploaded.
fn storage_with_three_chunks(map: &ExtractedTilemap) -> RenderChunkStorage {
    let mut storage = RenderChunkStorage::new();
    storage.set_tile(map, &tile(0, 0));
    storage.set_tile(map, &tile(4, 0));
    storage.set_tile(map, &tile(5, 0));
    storage.get_or_create(map, IVec2 { x: 8, y: 0 });
    let uploads = storage.prepare_chunks(map);
    assert_eq!(uploads, vec![IVec2 { x: 0, y: 0 }, IVec2 { x: 1, y: 0 }]);
    assert_eq!(storage.finish_upload(map.id, IVec2 { x: 0, y: 0 }, ok(100, 101)), Ok(()));
    assert_eq!(storage.finish_upload(map.id, IVec2 { x: 1, y: 0 }, ok(200, 201)), Ok(()));
    storage
}

fn chunk_commands() -> Vec<PassCommand> {
    vec![
        PassCommand::SetVertexBuffer { slot: 0, buffer: BufferId(200) },
        PassCommand::SetIndexBuffer { buffer: BufferId(201) },
        PassCommand::DrawIndexed { count: 12 },
        PassCommand::SetVertexBuffer { slot: 0, buffer: BufferId(100) },
        PassCommand::SetIndexBuffer { buffer: BufferId(101) },
        PassCommand::DrawIndexed { count: 6 },
    ]
}

#[test]
fn only_a_missing_pipeline_is_fatal() {
    assert!(DrawError::PipelineUnavailable.is_fatal());
    assert!(!DrawError::UniformBindGroupMissing.is_fatal());
    assert!(!DrawError::TextureBindGroupMissing.is_fatal());
}

#[test]
fn set_pipeline() {
    let mut pass = vec![PassCommand::Draw { vertex_count: 3 }];
    assert_eq!(SetPipeline::render(Some(PipelineId(4)), &mut pass), Ok(()));
    assert_eq!(
        pass,
        vec![PassCommand::Draw { vertex_count: 3 }, PassCommand::SetRenderPipeline(PipelineId(4))]
    );
    assert_eq!(SetPipeline::render(None, &mut pass), Err(DrawError::PipelineUnavailable));
    assert_eq!(pass.len(), 2);
}

#[test]
fn set_view_bind_group() {
    let mut pass = Vec::new();
    let view = TilemapViewBindGroup { value: ViewId(9) };
    assert_eq!(SetTilemapViewBindGroup::<0>::render(256, &view, &mut pass), Ok(()));
    assert_eq!(SetTilemapViewBindGroup::<3>::render(0, &view, &mut pass), Ok(()));
    assert_eq!(
        pass,
        vec![
            view_bound(),
            PassCommand::SetBindGroup {
                index: 3,
                group: BindGroupKey::View(ViewId(9)),
                offset: Some(0),
            },
        ]
    );
}

#[test]
fn set_uniform_bind_group() {
    let mut groups = TilemapBindGroups::new();
    let mut pass = Vec::new();
    let map = tilemap(1, None);
    assert_eq!(
        SetTilemapUniformBindGroup::<1>::render(&map, 64, &groups, &mut pass),
        Err(DrawError::UniformBindGroupMissing)
    );
    assert!(pass.is_empty());
    groups.bind_uniform_buffers(TilemapId(1), Some(BufferId(5)), &mut Vec::new());
    assert_eq!(SetTilemapUniformBindGroup::<1>::render(&map, 64, &groups, &mut pass), Ok(()));
    assert_eq!(pass, vec![uniform_bound(1)]);
    assert_eq!(
        SetTilemapUniformBindGroup::<1>::render(&tilemap(2, None), 64, &groups, &mut pass),
        Err(DrawError::UniformBindGroupMissing)
    );
    assert_eq!(pass.len(), 1);
}

#[test]
fn set_color_texture_bind_group() {
    let mut groups = TilemapBindGroups::new();
    let mut pass = Vec::new();
    // No texture: nothing to bind.
    assert_eq!(
        SetTilemapColorTextureBindGroup::<2>::render(&tilemap(1, None), &groups, &mut pass),
        Ok(())
    );
    assert!(pass.is_empty());
    let map = tilemap(1, Some(40));
    assert_eq!(
        SetTilemapColorTextureBindGroup::<2>::render(&map, &groups, &mut pass),
        Err(DrawError::TextureBindGroupMissing)
    );
    assert!(pass.is_empty());
    let resolution =
        TextureResolution::Ready { view: TextureViewId(1), sampler: SamplerId(2) };
    assert!(!groups.queue_textures(&map, resolution, &mut Vec::new()));
    assert_eq!(SetTilemapColorTextureBindGroup::<2>::render(&map, &groups, &mut pass), Ok(()));
    assert_eq!(
        pass,
        vec![PassCommand::SetBindGroup {
            index: 2,
            group: BindGroupKey::ColorTexture(TextureHandle(40)),
            offset: None,
        }]
    );
}

#[test]
fn chunks_are_drawn_from_the_back_to_the_front() {
    let map = tilemap(1, None);
    let storage = storage_with_three_chunks(&map);
    let mut pass = Vec::new();
    assert_eq!(DrawTileMesh::render(&map, &storage, &mut pass), Ok(()));
    // The empty chunk, made last, would come first: it has no mesh and is
    // passed over.
    assert_eq!(pass, chunk_commands());
    // A tilemap without chunks draws nothing.
    let mut other = Vec::new();
    assert_eq!(DrawTileMesh::render(&tilemap(2, None), &storage, &mut other), Ok(()));
    assert!(other.is_empty());
}

#[test]
fn hidden_and_unfinished_chunks_are_passed_over() {
    let map = tilemap(1, None);
    let mut storage = storage_with_three_chunks(&map);
    storage.get_or_create(&map, IVec2 { x: 4, y: 0 }).set_visible(false);
    // A chunk whose first upload is still out has no mesh.
    storage.set_tile(&map, &tile(12, 0));
    assert_eq!(storage.prepare_chunks(&map), vec![IVec2 { x: 3, y: 0 }]);
    let mut pass = Vec::new();
    assert_eq!(DrawTileMesh::render(&map, &storage, &mut pass), Ok(()));
    assert_eq!(pass, chunk_commands()[3..].to_vec());
    // A dirty chunk is drawn with the mesh that it has.
    storage.set_tile(&map, &tile(1, 1));
    let mut again = Vec::new();
    assert_eq!(DrawTileMesh::render(&map, &storage, &mut again), Ok(()));
    assert_eq!(again, chunk_commands()[3..].to_vec());
}

#[test]
fn draw_a_textured_tilemap() {
    let map = tilemap(1, Some(40));
    let storage = storage_with_three_chunks(&map);
    let mut groups = TilemapBindGroups::new();
    groups.bind_uniform_buffers(TilemapId(1), Some(BufferId(5)), &mut Vec::new());
    let resolution =
        TextureResolution::Ready { view: TextureViewId(1), sampler: SamplerId(2) };
    assert!(!groups.queue_textures(&map, resolution, &mut Vec::new()));
    let mut pass = Vec::new();
    let r = draw(&item(map, false), Some(PipelineId(4)), &groups, &storage, &mut pass);
    assert_eq!(r, Ok(()));
    let mut expected = vec![
        PassCommand::SetRenderPipeline(PipelineId(4)),
        view_bound(),
        uniform_bound(1),
        PassCommand::SetBindGroup {
            index: 2,
            group: BindGroupKey::ColorTexture(TextureHandle(40)),
            offset: None,
        },
    ];
    expected.extend(chunk_commands());
    assert_eq!(pass, expected);
}

#[test]
fn draw_in_pure_color_binds_no_texture() {
    let storage = storage_with_three_chunks(&tilemap(1, None));
    let mut groups = TilemapBindGroups::new();
    groups.bind_uniform_buffers(TilemapId(1), Some(BufferId(5)), &mut Vec::new());
    let mut expected =
        vec![PassCommand::SetRenderPipeline(PipelineId(4)), view_bound(), uniform_bound(1)];
    expected.extend(chunk_commands());

    let mut pass = Vec::new();
    let plain = item(tilemap(1, None), true);
    assert_eq!(draw(&plain, Some(PipelineId(4)), &groups, &storage, &mut pass), Ok(()));
    assert_eq!(pass, expected);

    // A texture that is still loading: the item is drawn in plain colors.
    let mut pass = Vec::new();
    let pending = item(tilemap(1, Some(40)), true);
    assert_eq!(draw(&pending, Some(PipelineId(4)), &groups, &storage, &mut pass), Ok(()));
    assert_eq!(pass, expected);

    // No texture at all, though the item does not say plain colors.
    let mut pass = Vec::new();
    let none = item(tilemap(1, None), false);
    assert_eq!(draw(&none, Some(PipelineId(4)), &groups, &storage, &mut pass), Ok(()));
    assert_eq!(pass, expected);
}

#[test]
fn draw_stops_at_the_first_step_that_fails() {
    let map = tilemap(1, Some(40));
    let storage = storage_with_three_chunks(&map);
    let mut groups = TilemapBindGroups::new();

    let mut pass = Vec::new();
    let r = draw(&item(map, false), None, &groups, &storage, &mut pass);
    assert_eq!(r, Err(DrawError::PipelineUnavailable));
    assert!(r.unwrap_err().is_fatal());
    assert!(pass.is_empty());

    let r = draw(&item(map, false), Some(PipelineId(4)), &groups, &storage, &mut pass);
    assert_eq!(r, Err(DrawError::UniformBindGroupMissing));
    assert_eq!(pass, vec![PassCommand::SetRenderPipeline(PipelineId(4)), view_bound()]);

    groups.bind_uniform_buffers(TilemapId(1), Some(BufferId(5)), &mut Vec::new());
    let mut pass = Vec::new();
    let r = draw(&item(map, false), Some(PipelineId(4)), &groups, &storage, &mut pass);
    assert_eq!(r, Err(DrawError::TextureBindGroupMissing));
    assert_eq!(
        pass,
        vec![PassCommand::SetRenderPipeline(PipelineId(4)), view_bound(), uniform_bound(1)]
    );
}

#[test]
fn queue_keeps_the_order_of_the_host() {
    let mut groups = TilemapBindGroups::new();
    let mut commands = Vec::new();
    let view = QueueView { bind_group: TilemapViewBindGroup { value: ViewId(9) }, uniform_offset: 256 };
    let ready = TextureResolution::Ready { view: TextureViewId(1), sampler: SamplerId(2) };
    let visible = vec![
        VisibleTilemap { tilemap: tilemap(3, Some(40)), resolution: ready, uniform_index: 0 },
        VisibleTilemap { tilemap: tilemap(1, None), resolution: ready, uniform_index: 64 },
        VisibleTilemap {
            tilemap: tilemap(2, Some(41)),
            resolution: TextureResolution::Pending,
            uniform_index: 128,
        },
        VisibleTilemap { tilemap: tilemap(4, Some(40)), resolution: ready, uniform_index: 192 },
    ];
    let items = queue(&mut groups, view, &visible, &mut commands);
    let ids: Vec<u64> = items.iter().map(|i| i.tilemap.id.0).collect();
    assert_eq!(ids, vec![3, 1, 2, 4]);
    let plain: Vec<bool> = items.iter().map(|i| i.pure_color).collect();
    assert_eq!(plain, vec![false, true, true, false]);
    let offsets: Vec<u32> = items.iter().map(|i| i.uniform_index).collect();
    assert_eq!(offsets, vec![0, 64, 128, 192]);
    assert!(items.iter().all(|i| i.view == view.bind_group && i.view_uniform_offset == 256));
    assert_eq!(
        commands,
        vec![DeviceCommand::CreateColorTextureBindGroup {
            texture: TextureHandle(40),
            view: TextureViewId(1),
            sampler: SamplerId(2),
        }]
    );
    assert_eq!(groups.colored_texture_count(), 1);
    assert!(queue(&mut groups, view, &vec![], &mut commands).is_empty());
    assert_eq!(commands.len(), 1);
}

#[test]
fn a_whole_frame() {
    let map = tilemap(1, Some(40));
    let mut storage = RenderChunkStorage::new();
    let mut groups = TilemapBindGroups::new();
    let mut commands = Vec::new();
    storage.set_tile(&map, &tile(0, 0));
    storage.set_tile(&map, &tile(-1, 0));

    let uploads = prepare(
        &mut storage,
        &mut groups,
        &map,
        Some(BufferId(5)),
        &vec![(TilemapId(1), BufferId(6))],
        &mut commands,
    );
    assert_eq!(uploads, vec![IVec2 { x: 0, y: 0 }, IVec2 { x: -1, y: 0 }]);
    assert_eq!(
        commands,
        vec![
            DeviceCommand::CreateUniformBindGroup { tilemap: TilemapId(1), buffer: BufferId(5) },
            DeviceCommand::CreateStorageBindGroup { tilemap: TilemapId(1), buffer: BufferId(6) },
        ]
    );
    assert_eq!(storage.finish_upload(map.id, uploads[0], ok(1, 2)), Ok(()));
    assert_eq!(
        storage.finish_upload(map.id, uploads[1], Err(UploadError::OutOfMemory)),
        Err(UploadError::OutOfMemory)
    );

    let view = QueueView { bind_group: TilemapViewBindGroup { value: ViewId(9) }, uniform_offset: 256 };
    let visible = vec![VisibleTilemap {
        tilemap: map,
        resolution: TextureResolution::Pending,
        uniform_index: 64,
    }];
    let items = queue(&mut groups, view, &visible, &mut commands);
    assert_eq!(items, vec![item(map, true)]);

    let mut pass = Vec::new();
    assert_eq!(draw(&items[0], Some(PipelineId(4)), &groups, &storage, &mut pass), Ok(()));
    // The chunk whose upload failed draws nothing in this frame.
    assert_eq!(
        pass,
        vec![
            PassCommand::SetRenderPipeline(PipelineId(4)),
            view_bound(),
            uniform_bound(1),
            PassCommand::SetVertexBuffer { slot: 0, buffer: BufferId(1) },
            PassCommand::SetIndexBuffer { buffer: BufferId(2) },
            PassCommand::DrawIndexed { count: 6 },
        ]
    );

    // Next frame: nothing new to bind, one chunk to try again.
    let before = commands.len();
    let uploads = prepare(
        &mut storage,
        &mut groups,
        &map,
        Some(BufferId(5)),
        &vec![(TilemapId(1), BufferId(6))],
        &mut commands,
    );
    assert_eq!(commands.len(), before);
    assert_eq!(uploads, vec![IVec2 { x: -1, y: 0 }]);
}
