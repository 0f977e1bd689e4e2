//! From the visible tilemaps of a frame to the items that are drawn.

use vstd::prelude::*;
use crate::render::binding::{
    is_pure_color, BindGroupsView, DeviceCommand, TextureResolution, TilemapBindGroups,
    TilemapViewBindGroup,
};
use crate::render::draw::DrawItem;
use crate::render::extract::ExtractedTilemap;

verus! {

/// A tilemap that is visible in a view in this frame, with what the host
/// knows about it.
#[derive(Clone, Copy, Debug, PartialEq, Eq, Structural)]
pub struct VisibleTilemap {
    pub tilemap: ExtractedTilemap,
    /// What the host knows of the tilemap's texture; it counts for nothing
    /// where the tilemap has none.
    pub resolution: TextureResolution,
    /// Where the uniforms of the tilemap start.
    pub uniform_index: u32,
}

/// The view into which a frame is drawn.
#[derive(Clone, Copy, Debug, PartialEq, Eq, Structural)]
pub struct QueueView {
    pub bind_group: TilemapViewBindGroup,
    /// Where the uniforms of the view start.
    pub uniform_offset: u32,
}

/// The item that draws a visible tilemap into a view.
pub open spec fn item_of(view: QueueView, visible: VisibleTilemap) -> DrawItem {
    DrawItem {
        tilemap: visible.tilemap,
        view: view.bind_group,
        view_uniform_offset: view.uniform_offset,
        uniform_index: visible.uniform_index,
        pure_color: is_pure_color(visible.tilemap, visible.resolution),
    }
}

/// The items of a frame: one for each visible tilemap, in the order of the
/// tilemaps.
pub open spec fn items_of(view: QueueView, visible: Seq<VisibleTilemap>) -> Seq<DrawItem> {
    Seq::new(visible.len(), |i: int| item_of(view, visible[i]))
}

/// The cache after the textures of the visible tilemaps were seen to, one
/// tilemap after the other.
pub open spec fn queued(groups: BindGroupsView, visible: Seq<VisibleTilemap>) -> BindGroupsView
    decreases visible.len(),
{
    if visible.len() == 0 {
        groups
    } else {
        queued(groups, visible.drop_last()).queue_textures(
            visible.last().tilemap,
            visible.last().resolution,
        )
    }
}

/// The bind groups that the host is asked for while a frame is queued.
pub open spec fn queue_commands(groups: BindGroupsView, visible: Seq<VisibleTilemap>) -> Seq<
    DeviceCommand,
>
    decreases visible.len(),
{
    if visible.len() == 0 {
        Seq::empty()
    } else {
        queue_commands(groups, visible.drop_last()) + queued(
            groups,
            visible.drop_last(),
        ).texture_commands(visible.last().tilemap, visible.last().resolution)
    }
}

/// Queuing only adds color textures to the cache.
pub proof fn lemma_queued_grows(groups: BindGroupsView, visible: Seq<VisibleTilemap>)
    ensures
        queued(groups, visible).tilemap_uniform_buffers == groups.tilemap_uniform_buffers,
        queued(groups, visible).tilemap_storage_buffers == groups.tilemap_storage_buffers,
        groups.colored_textures.submap_of(queued(groups, visible).colored_textures),
    decreases visible.len(),
{
    if visible.len() > 0 {
        lemma_queued_grows(groups, visible.drop_last());
    }
}

/// Every item that is queued to be drawn with its texture finds the bind
/// group of that texture in the cache.
pub proof fn lemma_queued_textures_are_bound(
    groups: BindGroupsView,
    view: QueueView,
    visible: Seq<VisibleTilemap>,
    i: int,
)
    requires
        0 <= i < visible.len(),
        !items_of(view, visible)[i].pure_color,
    ensures
        visible[i].tilemap.texture is Some,
        queued(groups, visible).colored_textures.contains_key(
            visible[i].tilemap.texture->0.texture,
        ),
    decreases visible.len(),
{
    let texture = visible[i].tilemap.texture->0.texture;
    if i == visible.len() - 1 {
    } else {
        lemma_queued_textures_are_bound(groups, view, visible.drop_last(), i);
        assert(visible.drop_last()[i] == visible[i]);
        let mid = queued(groups, visible.drop_last());
        assert(mid.colored_textures.contains_key(texture));
    }
}

/// Queues the visible tilemaps of a view: sees to the texture of each, and
/// makes one draw item for each, in the order in which the host gave them.
/// An item is drawn in plain colors where its tilemap has no texture or the
/// texture is not on the GPU yet.
pub fn queue(
    bind_groups: &mut TilemapBindGroups,
    view: QueueView,
    visible: &Vec<VisibleTilemap>,
    commands: &mut Vec<DeviceCommand>,
) -> (items: Vec<DrawItem>)
    ensures
        items@ == items_of(view, visible@),
        final(bind_groups)@ == queued(old(bind_groups)@, visible@),
        final(commands)@ == old(commands)@ + queue_commands(old(bind_groups)@, visible@),
{
    let mut items: Vec<DrawItem> = Vec::new();
    let mut i: usize = 0;
    proof {
        assert(visible@.take(0) =~= Seq::empty());
        assert(commands@ =~= old(commands)@ + Seq::<DeviceCommand>::empty());
    }
    while i < visible.len()
        invariant
            i <= visible@.len(),
            items@ == items_of(view, visible@.take(i as int)),
            bind_groups@ == queued(old(bind_groups)@, visible@.take(i as int)),
            commands@ == old(commands)@ + queue_commands(
                old(bind_groups)@,
                visible@.take(i as int),
            ),
        decreases visible@.len() - i,
    {
        proof {
            assert(visible@.take(i + 1).drop_last() =~= visible@.take(i as int));
            assert(visible@.take(i + 1).last() == visible@[i as int]);
        }
        let entry = visible[i];
        let pure_color = bind_groups.queue_textures(&entry.tilemap, entry.resolution, commands);
        items.push(
            DrawItem {
                tilemap: entry.tilemap,
                view: view.bind_group,
                view_uniform_offset: view.uniform_offset,
                uniform_index: entry.uniform_index,
                pure_color,
            },
        );
        proof {
            assert(items@ =~= items_of(view, visible@.take(i + 1)));
            assert(commands@ =~= old(commands)@ + queue_commands(
                old(bind_groups)@,
                visible@.take(i + 1),
            ));
        }
        i = i + 1;
    }
    proof {
        assert(visible@.take(i as int) =~= visible@);
    }
    items
}

} // verus!
