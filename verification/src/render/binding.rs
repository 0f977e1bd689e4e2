//! The bind groups that drawing needs, and when they have to be made.
//!
//! A bind group lives with the host under a key: the tilemap for its uniform
//! and storage buffers, the texture for its color texture. This cache knows
//! which keys are bound and to what, so that a bind group is made again only
//! when what it binds has changed.

use vstd::prelude::*;
use std::collections::HashMap;
use vstd::relations::injective_on;
use vstd::set_lib::lemma_map_size;
use crate::handle::{BufferId, SamplerId, TextureHandle, TextureViewId, TilemapId, ViewId};
use crate::render::extract::ExtractedTilemap;

verus! {

/// The bind group of a camera view.
#[derive(Clone, Copy, Debug, PartialEq, Eq, Structural)]
pub struct TilemapViewBindGroup {
    pub value: ViewId,
}

/// What the host knows of a texture asset.
#[derive(Clone, Copy, Debug, PartialEq, Eq, Structural)]
pub enum TextureResolution {
    /// The texture is on the GPU.
    Ready { view: TextureViewId, sampler: SamplerId },
    /// The texture is still being loaded.
    Pending,
    /// The host has no such texture.
    Missing,
}

/// What a color texture bind group binds.
#[derive(Clone, Copy, Debug, PartialEq, Eq, Structural)]
pub struct TextureBinding {
    pub view: TextureViewId,
    pub sampler: SamplerId,
}

/// A bind group that the host has to make, and to keep under its key.
#[derive(Clone, Copy, Debug, PartialEq, Eq, Structural)]
pub enum DeviceCommand {
    CreateUniformBindGroup { tilemap: TilemapId, buffer: BufferId },
    CreateStorageBindGroup { tilemap: TilemapId, buffer: BufferId },
    CreateColorTextureBindGroup { texture: TextureHandle, view: TextureViewId, sampler: SamplerId },
}

/// What the cache holds.
pub struct BindGroupsView {
    /// The uniform buffer that the bind group of each tilemap binds.
    pub tilemap_uniform_buffers: Map<TilemapId, BufferId>,
    /// The storage buffer that the bind group of each tilemap binds.
    pub tilemap_storage_buffers: Map<TilemapId, BufferId>,
    /// What the bind group of each texture binds.
    pub colored_textures: Map<TextureHandle, TextureBinding>,
}

/// Whether a bind group has to be made for this buffer: there is none under
/// the key yet, or it binds another buffer.
pub open spec fn needs_bind(groups: Map<TilemapId, BufferId>, tilemap: TilemapId, buffer: BufferId)
    -> bool {
    !(groups.contains_key(tilemap) && groups[tilemap] == buffer)
}

/// The storage bind groups after each tilemap in the list was bound to its
/// buffer, one after the other.
pub open spec fn storage_bound(
    groups: Map<TilemapId, BufferId>,
    bindings: Seq<(TilemapId, BufferId)>,
) -> Map<TilemapId, BufferId>
    decreases bindings.len(),
{
    if bindings.len() == 0 {
        groups
    } else {
        storage_bound(groups, bindings.drop_last()).insert(bindings.last().0, bindings.last().1)
    }
}

/// The bind groups that have to be made while the list is bound: one for each
/// entry that finds its tilemap unbound or bound to another buffer.
pub open spec fn storage_commands(
    groups: Map<TilemapId, BufferId>,
    bindings: Seq<(TilemapId, BufferId)>,
) -> Seq<DeviceCommand>
    decreases bindings.len(),
{
    if bindings.len() == 0 {
        Seq::empty()
    } else {
        let before = storage_bound(groups, bindings.drop_last());
        let made = storage_commands(groups, bindings.drop_last());
        if needs_bind(before, bindings.last().0, bindings.last().1) {
            made.push(
                DeviceCommand::CreateStorageBindGroup {
                    tilemap: bindings.last().0,
                    buffer: bindings.last().1,
                },
            )
        } else {
            made
        }
    }
}

/// Whether a tilemap is drawn in plain colors: it has no texture, or its
/// texture is not on the GPU yet.
pub open spec fn is_pure_color(tilemap: ExtractedTilemap, resolution: TextureResolution) -> bool {
    tilemap.texture is None || !(resolution is Ready)
}

impl BindGroupsView {
    /// The cache after `bind_uniform_buffers`.
    pub open spec fn bind_uniform(self, tilemap: TilemapId, buffer: Option<BufferId>)
        -> BindGroupsView {
        match buffer {
            Some(buffer) => BindGroupsView {
                tilemap_uniform_buffers: self.tilemap_uniform_buffers.insert(tilemap, buffer),
                ..self
            },
            None => self,
        }
    }

    /// The bind groups that `bind_uniform_buffers` asks for.
    pub open spec fn uniform_commands(self, tilemap: TilemapId, buffer: Option<BufferId>) -> Seq<
        DeviceCommand,
    > {
        match buffer {
            Some(buffer) if needs_bind(self.tilemap_uniform_buffers, tilemap, buffer) => seq![
                DeviceCommand::CreateUniformBindGroup { tilemap, buffer },
            ],
            _ => Seq::empty(),
        }
    }

    /// Whether `queue_textures` makes a bind group: the tilemap has a texture
    /// that is on the GPU and has no bind group yet.
    pub open spec fn binds_texture(self, tilemap: ExtractedTilemap, resolution: TextureResolution)
        -> bool {
        &&& tilemap.texture matches Some(texture)
        &&& resolution is Ready
        &&& !self.colored_textures.contains_key(texture.texture)
    }

    /// The cache after `queue_textures`.
    pub open spec fn queue_textures(self, tilemap: ExtractedTilemap, resolution: TextureResolution)
        -> BindGroupsView {
        if self.binds_texture(tilemap, resolution) {
            BindGroupsView {
                colored_textures: self.colored_textures.insert(
                    tilemap.texture->0.texture,
                    TextureBinding { view: resolution->view, sampler: resolution->sampler },
                ),
                ..self
            }
        } else {
            self
        }
    }

    /// The bind groups that `queue_textures` asks for.
    pub open spec fn texture_commands(
        self,
        tilemap: ExtractedTilemap,
        resolution: TextureResolution,
    ) -> Seq<DeviceCommand> {
        if self.binds_texture(tilemap, resolution) {
            seq![
                DeviceCommand::CreateColorTextureBindGroup {
                    texture: tilemap.texture->0.texture,
                    view: resolution->view,
                    sampler: resolution->sampler,
                },
            ]
        } else {
            Seq::empty()
        }
    }
}

impl BindGroupsView {
    /// The cache after the same tilemap was queued in a row of frames, with
    /// what the host knew of its texture in each.
    pub open spec fn queue_frames(
        self,
        tilemap: ExtractedTilemap,
        resolutions: Seq<TextureResolution>,
    ) -> BindGroupsView
        decreases resolutions.len(),
    {
        if resolutions.len() == 0 {
            self
        } else {
            self.queue_frames(tilemap, resolutions.drop_last()).queue_textures(
                tilemap,
                resolutions.last(),
            )
        }
    }

    /// The bind groups that the host was asked for in those frames.
    pub open spec fn frames_commands(
        self,
        tilemap: ExtractedTilemap,
        resolutions: Seq<TextureResolution>,
    ) -> Seq<DeviceCommand>
        decreases resolutions.len(),
    {
        if resolutions.len() == 0 {
            Seq::empty()
        } else {
            self.frames_commands(tilemap, resolutions.drop_last()) + self.queue_frames(
                tilemap,
                resolutions.drop_last(),
            ).texture_commands(tilemap, resolutions.last())
        }
    }
}

/// A tilemap without a texture is drawn in plain colors whatever the host
/// says, and never touches the cache.
pub proof fn lemma_untextured_is_pure_color(
    groups: BindGroupsView,
    tilemap: ExtractedTilemap,
    resolutions: Seq<TextureResolution>,
)
    requires
        tilemap.texture is None,
    ensures
        forall|k: int|
            0 <= k < resolutions.len() ==> is_pure_color(tilemap, #[trigger] resolutions[k]),
        groups.queue_frames(tilemap, resolutions) == groups,
        groups.frames_commands(tilemap, resolutions) == Seq::<DeviceCommand>::empty(),
    decreases resolutions.len(),
{
    if resolutions.len() > 0 {
        lemma_untextured_is_pure_color(groups, tilemap, resolutions.drop_last());
        assert(groups.frames_commands(tilemap, resolutions) =~= Seq::<DeviceCommand>::empty());
    }
}

/// A texture gets its bind group once. Over any row of frames a textured
/// tilemap is drawn in plain colors in just those frames in which its texture
/// is not on the GPU. The host is asked for the texture's bind group in the
/// first frame that finds the texture on the GPU, unless the cache had it
/// before, and never again. Nothing else in the cache changes.
pub proof fn lemma_texture_bound_once(
    groups: BindGroupsView,
    tilemap: ExtractedTilemap,
    resolutions: Seq<TextureResolution>,
)
    requires
        tilemap.texture is Some,
    ensures
        ({
            let texture = tilemap.texture->0.texture;
            let after = groups.queue_frames(tilemap, resolutions);
            let made = groups.frames_commands(tilemap, resolutions);
            let ready = exists|k: int|
                0 <= k < resolutions.len() && (#[trigger] resolutions[k]) is Ready;
            &&& forall|k: int|
                0 <= k < resolutions.len() ==> (is_pure_color(tilemap, #[trigger] resolutions[k])
                    <==> !(resolutions[k] is Ready))
            &&& after.colored_textures.contains_key(texture)
                <==> groups.colored_textures.contains_key(texture) || ready
            &&& made.len() == (if ready && !groups.colored_textures.contains_key(texture) {
                1nat
            } else {
                0nat
            })
            &&& after.colored_textures.remove(texture) == groups.colored_textures.remove(texture)
            &&& groups.colored_textures.contains_key(texture) ==> after == groups
            &&& after.tilemap_uniform_buffers == groups.tilemap_uniform_buffers
            &&& after.tilemap_storage_buffers == groups.tilemap_storage_buffers
        }),
    decreases resolutions.len(),
{
    let texture = tilemap.texture->0.texture;
    if resolutions.len() == 0 {
        assert(groups.colored_textures.remove(texture) =~= groups.colored_textures.remove(
            texture,
        ));
    } else {
        let before = resolutions.drop_last();
        lemma_texture_bound_once(groups, tilemap, before);
        let mid = groups.queue_frames(tilemap, before);
        let after = groups.queue_frames(tilemap, resolutions);
        let ready_before = exists|k: int| 0 <= k < before.len() && (#[trigger] before[k]) is Ready;
        let ready = exists|k: int|
            0 <= k < resolutions.len() && (#[trigger] resolutions[k]) is Ready;
        if ready_before {
            let k = choose|k: int| 0 <= k < before.len() && (#[trigger] before[k]) is Ready;
            assert(resolutions[k] is Ready);
        }
        if resolutions.last() is Ready {
            assert(resolutions[resolutions.len() - 1] is Ready);
        }
        if ready {
            let k = choose|k: int|
                0 <= k < resolutions.len() && (#[trigger] resolutions[k]) is Ready;
            if k < before.len() {
                assert(before[k] is Ready);
            }
        }
        assert(after.colored_textures.remove(texture) =~= groups.colored_textures.remove(
            texture,
        ));
        if groups.colored_textures.contains_key(texture) {
            assert(after.colored_textures =~= groups.colored_textures);
        }
    }
}

spec fn by_tilemap<V>(m: Map<u64, V>) -> Map<TilemapId, V> {
    Map::new(|k: TilemapId| m.contains_key(k.0), |k: TilemapId| m[k.0])
}

spec fn by_texture<V>(m: Map<u64, V>) -> Map<TextureHandle, V> {
    Map::new(|k: TextureHandle| m.contains_key(k.0), |k: TextureHandle| m[k.0])
}

proof fn lemma_by_tilemap_insert<V>(m: Map<u64, V>, k: TilemapId, v: V)
    ensures
        by_tilemap(m.insert(k.0, v)) == by_tilemap(m).insert(k, v),
{
    assert(by_tilemap(m.insert(k.0, v)) =~= by_tilemap(m).insert(k, v));
}

proof fn lemma_by_texture_insert<V>(m: Map<u64, V>, k: TextureHandle, v: V)
    ensures
        by_texture(m.insert(k.0, v)) == by_texture(m).insert(k, v),
{
    assert(by_texture(m.insert(k.0, v)) =~= by_texture(m).insert(k, v));
}

proof fn lemma_by_texture_len<V>(m: Map<u64, V>)
    requires
        m.dom().finite(),
    ensures
        by_texture(m).dom().finite(),
        by_texture(m).len() == m.len(),
{
    let f = |k: u64| TextureHandle(k);
    assert(injective_on(f, m.dom()));
    assert(m.dom().map(f) =~= by_texture(m).dom()) by {
        assert forall|h: TextureHandle| m.dom().map(f).contains(h) <==> by_texture(
            m,
        ).dom().contains(h) by {
            if by_texture(m).dom().contains(h) {
                assert(m.dom().contains(h.0) && f(h.0) == h);
            }
        }
    }
    lemma_map_size(m.dom(), by_texture(m).dom(), f);
}

/// The cache of bind groups.
pub struct TilemapBindGroups {
    tilemap_uniform_buffers: HashMap<u64, BufferId>,
    tilemap_storage_buffers: HashMap<u64, BufferId>,
    colored_textures: HashMap<u64, TextureBinding>,
}

impl View for TilemapBindGroups {
    type V = BindGroupsView;

    closed spec fn view(&self) -> BindGroupsView {
        BindGroupsView {
            tilemap_uniform_buffers: by_tilemap(self.tilemap_uniform_buffers@),
            tilemap_storage_buffers: by_tilemap(self.tilemap_storage_buffers@),
            colored_textures: by_texture(self.colored_textures@),
        }
    }
}

fn bind(groups: &mut HashMap<u64, BufferId>, tilemap: TilemapId, buffer: BufferId) -> (made: bool)
    ensures
        by_tilemap(final(groups)@) == by_tilemap(old(groups)@).insert(tilemap, buffer),
        made == needs_bind(by_tilemap(old(groups)@), tilemap, buffer),
{
    let bound = match groups.get(&tilemap.0) {
        Some(b) => *b == buffer,
        None => false,
    };
    if bound {
        proof {
            assert(by_tilemap(groups@) =~= by_tilemap(groups@).insert(tilemap, buffer));
        }
        false
    } else {
        groups.insert(tilemap.0, buffer);
        proof {
            lemma_by_tilemap_insert(old(groups)@, tilemap, buffer);
        }
        true
    }
}

impl Default for TilemapBindGroups {
    /// A cache that knows no bind group.
    fn default() -> (groups: TilemapBindGroups)
        ensures
            groups@.tilemap_uniform_buffers == Map::<TilemapId, BufferId>::empty(),
            groups@.tilemap_storage_buffers == Map::<TilemapId, BufferId>::empty(),
            groups@.colored_textures == Map::<TextureHandle, TextureBinding>::empty(),
    {
        TilemapBindGroups::new()
    }
}

impl TilemapBindGroups {
    /// A cache that knows no bind group.
    pub fn new() -> (groups: TilemapBindGroups)
        ensures
            groups@.tilemap_uniform_buffers == Map::<TilemapId, BufferId>::empty(),
            groups@.tilemap_storage_buffers == Map::<TilemapId, BufferId>::empty(),
            groups@.colored_textures == Map::<TextureHandle, TextureBinding>::empty(),
    {
        let groups = TilemapBindGroups {
            tilemap_uniform_buffers: HashMap::new(),
            tilemap_storage_buffers: HashMap::new(),
            colored_textures: HashMap::new(),
        };
        proof {
            assert(groups@.tilemap_uniform_buffers =~= Map::<TilemapId, BufferId>::empty());
            assert(groups@.tilemap_storage_buffers =~= Map::<TilemapId, BufferId>::empty());
            assert(groups@.colored_textures =~= Map::<TextureHandle, TextureBinding>::empty());
        }
        groups
    }

    /// Binds the uniform buffer of a tilemap. Without a buffer nothing
    /// happens. A tilemap that is bound to this buffer already keeps its bind
    /// group. Otherwise the tilemap is bound to the buffer and the host is
    /// asked for the bind group.
    pub fn bind_uniform_buffers(
        &mut self,
        tilemap: TilemapId,
        uniform_buffer: Option<BufferId>,
        commands: &mut Vec<DeviceCommand>,
    )
        ensures
            final(self)@ == old(self)@.bind_uniform(tilemap, uniform_buffer),
            final(commands)@ == old(commands)@ + old(self)@.uniform_commands(
                tilemap,
                uniform_buffer,
            ),
    {
        match uniform_buffer {
            Some(buffer) => {
                if bind(&mut self.tilemap_uniform_buffers, tilemap, buffer) {
                    commands.push(DeviceCommand::CreateUniformBindGroup { tilemap, buffer });
                    proof {
                        assert(commands@ =~= old(commands)@ + old(self)@.uniform_commands(
                            tilemap,
                            uniform_buffer,
                        ));
                    }
                } else {
                    proof {
                        assert(commands@ =~= old(commands)@ + old(self)@.uniform_commands(
                            tilemap,
                            uniform_buffer,
                        ));
                    }
                }
            },
            None => {
                proof {
                    assert(commands@ =~= old(commands)@ + Seq::<DeviceCommand>::empty());
                }
            },
        }
    }

    /// Binds the storage buffers of the listed tilemaps, one after the other,
    /// each as `bind_uniform_buffers` binds a uniform buffer.
    pub fn bind_storage_buffers(
        &mut self,
        storage_buffers: &Vec<(TilemapId, BufferId)>,
        commands: &mut Vec<DeviceCommand>,
    )
        ensures
            final(self)@ == (BindGroupsView {
                tilemap_storage_buffers: storage_bound(
                    old(self)@.tilemap_storage_buffers,
                    storage_buffers@,
                ),
                ..old(self)@
            }),
            final(commands)@ == old(commands)@ + storage_commands(
                old(self)@.tilemap_storage_buffers,
                storage_buffers@,
            ),
    {
        let ghost start = self@.tilemap_storage_buffers;
        let mut i: usize = 0;
        proof {
            assert(storage_buffers@.take(0) =~= Seq::empty());
            assert(commands@ =~= old(commands)@ + Seq::<DeviceCommand>::empty());
        }
        while i < storage_buffers.len()
            invariant
                i <= storage_buffers@.len(),
                start == old(self)@.tilemap_storage_buffers,
                self@ == (BindGroupsView {
                    tilemap_storage_buffers: storage_bound(start, storage_buffers@.take(i as int)),
                    ..old(self)@
                }),
                commands@ == old(commands)@ + storage_commands(
                    start,
                    storage_buffers@.take(i as int),
                ),
            decreases storage_buffers@.len() - i,
        {
            proof {
                assert(storage_buffers@.take(i + 1).drop_last() =~= storage_buffers@.take(
                    i as int,
                ));
                assert(storage_buffers@.take(i + 1).last() == storage_buffers@[i as int]);
            }
            let tilemap = storage_buffers[i].0;
            let buffer = storage_buffers[i].1;
            let ghost made = commands@;
            if bind(&mut self.tilemap_storage_buffers, tilemap, buffer) {
                commands.push(DeviceCommand::CreateStorageBindGroup { tilemap, buffer });
            }
            proof {
                assert(commands@ =~= old(commands)@ + storage_commands(
                    start,
                    storage_buffers@.take(i + 1),
                ));
            }
            i = i + 1;
        }
        proof {
            assert(storage_buffers@.take(i as int) =~= storage_buffers@);
        }
    }

    /// Sees to the color texture of a tilemap, and tells whether the tilemap
    /// is drawn in plain colors. That is so for a tilemap without a texture,
    /// and for one whose texture is not on the GPU yet; neither touches the
    /// cache. Once the texture is on the GPU the answer is `false`, and the
    /// texture gets its bind group, unless it has one.
    pub fn queue_textures(
        &mut self,
        tilemap: &ExtractedTilemap,
        resolution: TextureResolution,
        commands: &mut Vec<DeviceCommand>,
    ) -> (pure_color: bool)
        ensures
            pure_color == is_pure_color(*tilemap, resolution),
            final(self)@ == old(self)@.queue_textures(*tilemap, resolution),
            final(commands)@ == old(commands)@ + old(self)@.texture_commands(
                *tilemap,
                resolution,
            ),
            !pure_color ==> final(self)@.colored_textures.contains_key(
                tilemap.texture->0.texture,
            ),
    {
        proof {
            assert(commands@ =~= old(commands)@ + Seq::<DeviceCommand>::empty());
        }
        let texture = match tilemap.texture {
            Some(texture) => texture,
            None => {
                return true;
            },
        };
        match resolution {
            TextureResolution::Ready { view, sampler } => {
                let handle = texture.handle();
                if !self.colored_textures.contains_key(&handle.0) {
                    self.colored_textures.insert(handle.0, TextureBinding { view, sampler });
                    commands.push(
                        DeviceCommand::CreateColorTextureBindGroup {
                            texture: handle,
                            view,
                            sampler,
                        },
                    );
                    proof {
                        lemma_by_texture_insert(
                            old(self).colored_textures@,
                            handle,
                            TextureBinding { view, sampler },
                        );
                        assert(commands@ =~= old(commands)@ + old(self)@.texture_commands(
                            *tilemap,
                            resolution,
                        ));
                    }
                }
                false
            },
            _ => true,
        }
    }

    /// Forgets the bind groups of a tilemap that is gone.
    pub fn remove_tilemap(&mut self, tilemap: TilemapId)
        ensures
            final(self)@ == (BindGroupsView {
                tilemap_uniform_buffers: old(self)@.tilemap_uniform_buffers.remove(tilemap),
                tilemap_storage_buffers: old(self)@.tilemap_storage_buffers.remove(tilemap),
                ..old(self)@
            }),
    {
        self.tilemap_uniform_buffers.remove(&tilemap.0);
        self.tilemap_storage_buffers.remove(&tilemap.0);
        proof {
            assert(by_tilemap(self.tilemap_uniform_buffers@) =~= by_tilemap(
                old(self).tilemap_uniform_buffers@,
            ).remove(tilemap));
            assert(by_tilemap(self.tilemap_storage_buffers@) =~= by_tilemap(
                old(self).tilemap_storage_buffers@,
            ).remove(tilemap));
        }
    }

    /// Forgets the bind group of a texture that is gone.
    pub fn remove_texture(&mut self, texture: TextureHandle)
        ensures
            final(self)@ == (BindGroupsView {
                colored_textures: old(self)@.colored_textures.remove(texture),
                ..old(self)@
            }),
    {
        self.colored_textures.remove(&texture.0);
        proof {
            assert(by_texture(self.colored_textures@) =~= by_texture(
                old(self).colored_textures@,
            ).remove(texture));
        }
    }

    /// The uniform buffer that the bind group of a tilemap binds.
    pub fn uniform_buffer(&self, tilemap: TilemapId) -> (r: Option<BufferId>)
        ensures
            r == (if self@.tilemap_uniform_buffers.contains_key(tilemap) {
                Some(self@.tilemap_uniform_buffers[tilemap])
            } else {
                None
            }),
    {
        match self.tilemap_uniform_buffers.get(&tilemap.0) {
            Some(b) => Some(*b),
            None => None,
        }
    }

    /// The storage buffer that the bind group of a tilemap binds.
    pub fn storage_buffer(&self, tilemap: TilemapId) -> (r: Option<BufferId>)
        ensures
            r == (if self@.tilemap_storage_buffers.contains_key(tilemap) {
                Some(self@.tilemap_storage_buffers[tilemap])
            } else {
                None
            }),
    {
        match self.tilemap_storage_buffers.get(&tilemap.0) {
            Some(b) => Some(*b),
            None => None,
        }
    }

    /// What the bind group of a texture binds.
    pub fn colored_texture(&self, texture: TextureHandle) -> (r: Option<TextureBinding>)
        ensures
            r == (if self@.colored_textures.contains_key(texture) {
                Some(self@.colored_textures[texture])
            } else {
                None
            }),
    {
        match self.colored_textures.get(&texture.0) {
            Some(b) => Some(*b),
            None => None,
        }
    }

    /// The number of textures that have a bind group.
    pub fn colored_texture_count(&self) -> (n: usize)
        ensures
            n == self@.colored_textures.len(),
    {
        proof {
            lemma_by_texture_len(self.colored_textures@);
        }
        self.colored_textures.len()
    }
}

} // verus!
