//! What has to happen to a tilemap before a frame can be queued.

use vstd::prelude::*;
use crate::handle::{BufferId, TilemapId};
use crate::math::IVec2;
use crate::render::binding::{
    storage_bound, storage_commands, BindGroupsView, DeviceCommand, TilemapBindGroups,
};
use crate::render::extract::ExtractedTilemap;
use crate::render::storage::{prepared, upload_requests, RenderChunkStorage};

verus! {

/// Prepares a tilemap for a frame: rebuilds the meshes of its dirty chunks,
/// binds its uniform buffer, and binds the storage buffers in the list. The
/// answer tells which chunks have staged a mesh that the host must upload
/// before the frame is drawn.
pub fn prepare(
    render_chunks: &mut RenderChunkStorage,
    bind_groups: &mut TilemapBindGroups,
    tilemap: &ExtractedTilemap,
    uniform_buffer: Option<BufferId>,
    storage_buffers: &Vec<(TilemapId, BufferId)>,
    commands: &mut Vec<DeviceCommand>,
) -> (uploads: Vec<IVec2>)
    requires
        old(render_chunks).wf(),
    ensures
        final(render_chunks).wf(),
        uploads@ == upload_requests(old(render_chunks).chunks(tilemap.id)),
        final(render_chunks)@ == (if old(render_chunks)@.contains_key(tilemap.id) {
            old(render_chunks)@.insert(tilemap.id, prepared(old(render_chunks)@[tilemap.id]))
        } else {
            old(render_chunks)@
        }),
        final(bind_groups)@ == (BindGroupsView {
            tilemap_storage_buffers: storage_bound(
                old(bind_groups)@.tilemap_storage_buffers,
                storage_buffers@,
            ),
            ..old(bind_groups)@.bind_uniform(tilemap.id, uniform_buffer)
        }),
        final(commands)@ == old(commands)@ + old(bind_groups)@.uniform_commands(
            tilemap.id,
            uniform_buffer,
        ) + storage_commands(old(bind_groups)@.tilemap_storage_buffers, storage_buffers@),
{
    let uploads = render_chunks.prepare_chunks(tilemap);
    bind_groups.bind_uniform_buffers(tilemap.id, uniform_buffer, commands);
    bind_groups.bind_storage_buffers(storage_buffers, commands);
    uploads
}

} // verus!
