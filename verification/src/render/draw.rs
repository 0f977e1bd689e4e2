//! The commands that draw one tilemap.
//!
//! A render pass is a list of commands that the host replays on the GPU. A
//! tilemap is drawn in five steps, each of which adds to the list: the
//! pipeline, the bind group of the view, the bind group of the tilemap's
//! uniforms, the bind group of its texture if it has one, and its chunks from
//! the back to the front.

use vstd::prelude::*;
use crate::handle::{BufferId, PipelineId, TextureHandle, TilemapId, ViewId};
use crate::render::binding::{BindGroupsView, TilemapBindGroups, TilemapViewBindGroup};
use crate::render::chunk::{ChunkView, GpuBufferInfo, TilemapRenderChunk};
use crate::render::extract::ExtractedTilemap;
use crate::render::storage::{draw_order, RenderChunkStorage};

verus! {

/// The key under which the host keeps a bind group.
#[derive(Clone, Copy, Debug, PartialEq, Eq, Hash, Structural)]
pub enum BindGroupKey {
    View(ViewId),
    TilemapUniform(TilemapId),
    TilemapStorage(TilemapId),
    ColorTexture(TextureHandle),
}

/// One command of a render pass.
#[derive(Clone, Copy, Debug, PartialEq, Eq, Structural)]
pub enum PassCommand {
    SetRenderPipeline(PipelineId),
    /// Binds a group to a slot, with a dynamic offset where the group has one.
    SetBindGroup { index: usize, group: BindGroupKey, offset: Option<u32> },
    /// Binds the whole of a vertex buffer to a slot.
    SetVertexBuffer { slot: u32, buffer: BufferId },
    /// Binds the whole of a buffer of 32-bit indices.
    SetIndexBuffer { buffer: BufferId },
    /// Draws one instance from the first `count` indices.
    DrawIndexed { count: u32 },
    /// Draws one instance from the first `vertex_count` vertices.
    Draw { vertex_count: u32 },
}

/// Why a tilemap was not drawn.
#[derive(Clone, Copy, Debug, PartialEq, Eq, Structural)]
pub enum DrawError {
    /// The pipeline is not compiled. The tilemap is dropped for good.
    PipelineUnavailable,
    /// The tilemap has no uniform bind group yet. It is left out of this
    /// frame.
    UniformBindGroupMissing,
    /// The texture of the tilemap has no bind group. The tilemap is left out
    /// of this frame.
    TextureBindGroupMissing,
}

impl DrawError {
    /// Whether there is no point in trying the tilemap again.
    pub open spec fn fatal(self) -> bool {
        self == DrawError::PipelineUnavailable
    }

    /// Tells whether there is no point in trying the tilemap again.
    pub fn is_fatal(&self) -> (b: bool)
        ensures
            b == self.fatal(),
    {
        match self {
            DrawError::PipelineUnavailable => true,
            _ => false,
        }
    }
}

/// The commands that draw one chunk: none for a chunk that is hidden or has
/// no mesh on the GPU.
pub open spec fn chunk_commands(chunk: ChunkView) -> Seq<PassCommand> {
    if !chunk.visible {
        Seq::empty()
    } else {
        match chunk.gpu_mesh {
            None => Seq::empty(),
            Some(gpu_mesh) => match gpu_mesh.buffer_info {
                GpuBufferInfo::Indexed { buffer, count } => seq![
                    PassCommand::SetVertexBuffer { slot: 0, buffer: gpu_mesh.vertex_buffer },
                    PassCommand::SetIndexBuffer { buffer },
                    PassCommand::DrawIndexed { count },
                ],
                GpuBufferInfo::NonIndexed => seq![
                    PassCommand::SetVertexBuffer { slot: 0, buffer: gpu_mesh.vertex_buffer },
                    PassCommand::Draw { vertex_count: gpu_mesh.vertex_count },
                ],
            },
        }
    }
}

/// The commands that draw a row of chunks, one chunk after the other.
pub open spec fn chunks_commands(chunks: Seq<ChunkView>) -> Seq<PassCommand>
    decreases chunks.len(),
{
    if chunks.len() == 0 {
        Seq::empty()
    } else {
        chunks_commands(chunks.drop_last()) + chunk_commands(chunks.last())
    }
}

/// The command that binds the uniforms of a tilemap to slot `index`.
pub open spec fn uniform_command(index: usize, tilemap: TilemapId, offset: u32) -> PassCommand {
    PassCommand::SetBindGroup {
        index,
        group: BindGroupKey::TilemapUniform(tilemap),
        offset: Some(offset),
    }
}

/// The command that binds a color texture to slot `index`.
pub open spec fn texture_command(index: usize, texture: TextureHandle) -> PassCommand {
    PassCommand::SetBindGroup { index, group: BindGroupKey::ColorTexture(texture), offset: None }
}

/// The command that binds the view to slot `index`.
pub open spec fn view_command(index: usize, view: ViewId, offset: u32) -> PassCommand {
    PassCommand::SetBindGroup { index, group: BindGroupKey::View(view), offset: Some(offset) }
}

/// Sets the pipeline.
pub struct SetPipeline;

/// Binds the view to slot `I`.
pub struct SetTilemapViewBindGroup<const I: usize>;

/// Binds the uniforms of the tilemap to slot `I`.
pub struct SetTilemapUniformBindGroup<const I: usize>;

/// Binds the color texture of the tilemap to slot `I`.
pub struct SetTilemapColorTextureBindGroup<const I: usize>;

/// Draws the chunks of the tilemap.
pub struct DrawTileMesh;

impl SetPipeline {
    /// Sets the pipeline if it is compiled. If it is not, the pass is left
    /// alone and the tilemap is given up.
    pub fn render(pipeline: Option<PipelineId>, pass: &mut Vec<PassCommand>) -> (r: Result<
        (),
        DrawError,
    >)
        ensures
            match pipeline {
                Some(id) => r == Ok::<(), DrawError>(()) && final(pass)@ == old(pass)@.push(
                    PassCommand::SetRenderPipeline(id),
                ),
                None => r == Err::<(), DrawError>(DrawError::PipelineUnavailable) && final(pass)@ == old(pass)@,
            },
    {
        match pipeline {
            Some(id) => {
                pass.push(PassCommand::SetRenderPipeline(id));
                Ok(())
            },
            None => Err(DrawError::PipelineUnavailable),
        }
    }
}

impl<const I: usize> SetTilemapViewBindGroup<I> {
    /// Binds the view's bind group, at the view's offset into the uniforms.
    pub fn render(
        view_uniform_offset: u32,
        view_bind_group: &TilemapViewBindGroup,
        pass: &mut Vec<PassCommand>,
    ) -> (r: Result<(), DrawError>)
        ensures
            r == Ok::<(), DrawError>(()),
            final(pass)@ == old(pass)@.push(
                view_command(I, view_bind_group.value, view_uniform_offset),
            ),
    {
        pass.push(
            PassCommand::SetBindGroup {
                index: I,
                group: BindGroupKey::View(view_bind_group.value),
                offset: Some(view_uniform_offset),
            },
        );
        Ok(())
    }
}

impl<const I: usize> SetTilemapUniformBindGroup<I> {
    /// Binds the uniform bind group of the tilemap, at the tilemap's offset.
    /// A tilemap that has none yet leaves the pass alone and is not drawn.
    pub fn render(
        tilemap: &ExtractedTilemap,
        uniform_index: u32,
        bind_groups: &TilemapBindGroups,
        pass: &mut Vec<PassCommand>,
    ) -> (r: Result<(), DrawError>)
        ensures
            if bind_groups@.tilemap_uniform_buffers.contains_key(tilemap.id) {
                r == Ok::<(), DrawError>(()) && final(pass)@ == old(pass)@.push(
                    uniform_command(I, tilemap.id, uniform_index),
                )
            } else {
                r == Err::<(), DrawError>(DrawError::UniformBindGroupMissing) && final(pass)@
                    == old(pass)@
            },
    {
        match bind_groups.uniform_buffer(tilemap.id) {
            Some(_) => {
                pass.push(
                    PassCommand::SetBindGroup {
                        index: I,
                        group: BindGroupKey::TilemapUniform(tilemap.id),
                        offset: Some(uniform_index),
                    },
                );
                Ok(())
            },
            None => Err(DrawError::UniformBindGroupMissing),
        }
    }
}

impl<const I: usize> SetTilemapColorTextureBindGroup<I> {
    /// Binds the bind group of the tilemap's texture. A tilemap without a
    /// texture needs none. A texture without a bind group leaves the pass
    /// alone, and the tilemap is not drawn.
    pub fn render(
        tilemap: &ExtractedTilemap,
        bind_groups: &TilemapBindGroups,
        pass: &mut Vec<PassCommand>,
    ) -> (r: Result<(), DrawError>)
        ensures
            match tilemap.texture {
                None => r == Ok::<(), DrawError>(()) && final(pass)@ == old(pass)@,
                Some(texture) => if bind_groups@.colored_textures.contains_key(texture.texture) {
                    r == Ok::<(), DrawError>(()) && final(pass)@ == old(pass)@.push(
                        texture_command(I, texture.texture),
                    )
                } else {
                    r == Err::<(), DrawError>(DrawError::TextureBindGroupMissing) && final(pass)@ == old(pass)@
                },
            },
    {
        match tilemap.texture {
            None => Ok(()),
            Some(texture) => match bind_groups.colored_texture(texture.handle()) {
                Some(_) => {
                    pass.push(
                        PassCommand::SetBindGroup {
                            index: I,
                            group: BindGroupKey::ColorTexture(texture.handle()),
                            offset: None,
                        },
                    );
                    Ok(())
                },
                None => Err(DrawError::TextureBindGroupMissing),
            },
        }
    }
}

fn draw_chunk(chunk: &TilemapRenderChunk, pass: &mut Vec<PassCommand>)
    ensures
        final(pass)@ == old(pass)@ + chunk_commands(chunk@),
{
    if !chunk.visible() {
        proof {
            assert(pass@ =~= old(pass)@ + chunk_commands(chunk@));
        }
        return ;
    }
    match chunk.gpu_mesh() {
        Some(gpu_mesh) => {
            pass.push(PassCommand::SetVertexBuffer { slot: 0, buffer: gpu_mesh.vertex_buffer });
            match gpu_mesh.buffer_info {
                GpuBufferInfo::Indexed { buffer, count } => {
                    pass.push(PassCommand::SetIndexBuffer { buffer });
                    pass.push(PassCommand::DrawIndexed { count });
                },
                GpuBufferInfo::NonIndexed => {
                    pass.push(PassCommand::Draw { vertex_count: gpu_mesh.vertex_count });
                },
            }
            proof {
                assert(pass@ =~= old(pass)@ + chunk_commands(chunk@));
            }
        },
        None => {
            proof {
                assert(pass@ =~= old(pass)@ + chunk_commands(chunk@));
            }
        },
    }
}

impl DrawTileMesh {
    /// Draws the chunks of the tilemap from the back to the front. A chunk
    /// that is hidden, or has no mesh on the GPU, is passed over. Every other
    /// chunk gets its vertex buffer bound and one draw call: through its
    /// index buffer if it has one, over its vertices if not.
    pub fn render(
        tilemap: &ExtractedTilemap,
        render_chunks: &RenderChunkStorage,
        pass: &mut Vec<PassCommand>,
    ) -> (r: Result<(), DrawError>)
        requires
            render_chunks.inv(),
        ensures
            r == Ok::<(), DrawError>(()),
            final(pass)@ == old(pass)@ + chunks_commands(
                draw_order(render_chunks.chunks(tilemap.id)),
            ),
    {
        let chunks = render_chunks.chunks_of(tilemap.id);
        let ghost ordered = draw_order(render_chunks.chunks(tilemap.id));
        let mut i: usize = 0;
        proof {
            assert(ordered.take(0) =~= Seq::empty());
            assert(pass@ =~= old(pass)@ + Seq::<PassCommand>::empty());
        }
        while i < chunks.len()
            invariant
                i <= chunks@.len(),
                chunks@.len() == ordered.len(),
                forall|j: int| 0 <= j < chunks@.len() ==> (#[trigger] chunks@[j])@ == ordered[j],
                pass@ == old(pass)@ + chunks_commands(ordered.take(i as int)),
            decreases chunks@.len() - i,
        {
            proof {
                assert(ordered.take(i + 1).drop_last() =~= ordered.take(i as int));
                assert(ordered.take(i + 1).last() == ordered[i as int]);
            }
            draw_chunk(chunks[i], pass);
            proof {
                assert(pass@ =~= old(pass)@ + chunks_commands(ordered.take(i + 1)));
            }
            i = i + 1;
        }
        proof {
            assert(ordered.take(i as int) =~= ordered);
        }
        Ok(())
    }
}

/// One tilemap that is to be drawn into one view.
#[derive(Clone, Copy, Debug, PartialEq, Eq, Structural)]
pub struct DrawItem {
    pub tilemap: ExtractedTilemap,
    pub view: TilemapViewBindGroup,
    /// Where the uniforms of the view start.
    pub view_uniform_offset: u32,
    /// Where the uniforms of the tilemap start.
    pub uniform_index: u32,
    /// Whether the tilemap is drawn in plain colors, without its texture.
    pub pure_color: bool,
}

impl DrawItem {
    /// Whether drawing the item binds a texture.
    pub open spec fn binds_texture(self) -> bool {
        !self.pure_color && self.tilemap.texture is Some
    }

    /// How drawing the item ends. The pipeline is looked at first, then the
    /// uniform bind group, then the texture's bind group if one is needed.
    pub open spec fn draw_result(self, pipeline: Option<PipelineId>, groups: BindGroupsView)
        -> Result<(), DrawError> {
        if pipeline is None {
            Err(DrawError::PipelineUnavailable)
        } else if !groups.tilemap_uniform_buffers.contains_key(self.tilemap.id) {
            Err(DrawError::UniformBindGroupMissing)
        } else if self.binds_texture() && !groups.colored_textures.contains_key(
            self.tilemap.texture->0.texture,
        ) {
            Err(DrawError::TextureBindGroupMissing)
        } else {
            Ok(())
        }
    }

    /// The commands that drawing the item adds to the pass: the pipeline, the
    /// view in slot 0, the uniforms in slot 1, the texture in slot 2 if one is
    /// needed, then the chunks from the back to the front. Where a step
    /// fails, the commands of the steps before it are all there is.
    pub open spec fn draw_commands(
        self,
        pipeline: Option<PipelineId>,
        groups: BindGroupsView,
        chunks: Seq<ChunkView>,
    ) -> Seq<PassCommand> {
        match pipeline {
            None => Seq::empty(),
            Some(id) => {
                let head = seq![
                    PassCommand::SetRenderPipeline(id),
                    view_command(0, self.view.value, self.view_uniform_offset),
                ];
                if !groups.tilemap_uniform_buffers.contains_key(self.tilemap.id) {
                    head
                } else {
                    let bound = head.push(uniform_command(1, self.tilemap.id, self.uniform_index));
                    if !self.binds_texture() {
                        bound + chunks_commands(draw_order(chunks))
                    } else if !groups.colored_textures.contains_key(
                        self.tilemap.texture->0.texture,
                    ) {
                        bound
                    } else {
                        bound.push(texture_command(2, self.tilemap.texture->0.texture))
                            + chunks_commands(draw_order(chunks))
                    }
                }
            },
        }
    }
}

/// Draws one tilemap: sets the pipeline, binds the view, the uniforms and, for
/// a tilemap that is not drawn in plain colors, the texture, and draws the
/// chunks from the back to the front. The first step that fails ends the
/// drawing; what the steps before it added to the pass stays there.
pub fn draw(
    item: &DrawItem,
    pipeline: Option<PipelineId>,
    bind_groups: &TilemapBindGroups,
    render_chunks: &RenderChunkStorage,
    pass: &mut Vec<PassCommand>,
) -> (r: Result<(), DrawError>)
    requires
        render_chunks.inv(),
    ensures
        r == item.draw_result(pipeline, bind_groups@),
        final(pass)@ == old(pass)@ + item.draw_commands(
            pipeline,
            bind_groups@,
            render_chunks.chunks(item.tilemap.id),
        ),
{
    let ghost want = item.draw_commands(
        pipeline,
        bind_groups@,
        render_chunks.chunks(item.tilemap.id),
    );
    let ghost tail = chunks_commands(draw_order(render_chunks.chunks(item.tilemap.id)));
    match SetPipeline::render(pipeline, pass) {
        Err(e) => {
            proof {
                assert(pass@ =~= old(pass)@ + want);
            }
            return Err(e);
        },
        Ok(_) => {},
    }
    let _ = SetTilemapViewBindGroup::<0>::render(item.view_uniform_offset, &item.view, pass);
    match SetTilemapUniformBindGroup::<1>::render(
        &item.tilemap,
        item.uniform_index,
        bind_groups,
        pass,
    ) {
        Err(e) => {
            proof {
                assert(pass@ =~= old(pass)@ + want);
            }
            return Err(e);
        },
        Ok(_) => {},
    }
    if !item.pure_color {
        match SetTilemapColorTextureBindGroup::<2>::render(&item.tilemap, bind_groups, pass) {
            Err(e) => {
                proof {
                    assert(pass@ =~= old(pass)@ + want);
                }
                return Err(e);
            },
            Ok(_) => {},
        }
    }
    let ghost bound = pass@;
    let r = DrawTileMesh::render(&item.tilemap, render_chunks, pass);
    proof {
        assert(pass@ == bound + tail);
        assert(pass@ =~= old(pass)@ + want);
    }
    r
}

} // verus!
