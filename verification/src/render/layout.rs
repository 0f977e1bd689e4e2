//! The layouts of the bind groups that tilemaps are drawn with.

use vstd::prelude::*;

verus! {

/// Which shader stages see a binding.
#[derive(Clone, Copy, Debug, PartialEq, Eq, Structural)]
pub enum ShaderStages {
    Vertex,
    Fragment,
    VertexFragment,
}

/// How a buffer is bound.
#[derive(Clone, Copy, Debug, PartialEq, Eq, Structural)]
pub enum BufferBindingType {
    Uniform,
    Storage { read_only: bool },
}

/// The shape of a texture view.
#[derive(Clone, Copy, Debug, PartialEq, Eq, Structural)]
pub enum TextureViewDimension {
    D2,
    D2Array,
}

/// What is bound at a binding.
#[derive(Clone, Copy, Debug, PartialEq, Eq, Structural)]
pub enum BindingType {
    /// A buffer of at least `min_binding_size` bytes.
    Buffer { ty: BufferBindingType, has_dynamic_offset: bool, min_binding_size: u64 },
    /// A texture that is sampled as floating-point color.
    Texture { filterable: bool, view_dimension: TextureViewDimension, multisampled: bool },
    /// A sampler that filters.
    FilteringSampler,
}

/// One binding of a bind group layout.
#[derive(Clone, Copy, Debug, PartialEq, Eq, Structural)]
pub struct BindGroupLayoutEntry {
    pub binding: u32,
    pub visibility: ShaderStages,
    pub ty: BindingType,
}

/// The size in bytes of one entry of a tilemap's storage buffer.
pub const STORAGE_ENTRY_SIZE: u64 = 4;

/// The layout of the view's bind group: the view uniforms, at a dynamic
/// offset, for both stages.
pub open spec fn view_layout_entries(view_uniform_size: u64) -> Seq<BindGroupLayoutEntry> {
    seq![
        BindGroupLayoutEntry {
            binding: 0,
            visibility: ShaderStages::VertexFragment,
            ty: BindingType::Buffer {
                ty: BufferBindingType::Uniform,
                has_dynamic_offset: true,
                min_binding_size: view_uniform_size,
            },
        },
    ]
}

/// The layout of a tilemap's uniform bind group: the tilemap uniforms, at a
/// dynamic offset, for both stages.
pub open spec fn tilemap_uniforms_layout_entries(tilemap_uniform_size: u64) -> Seq<
    BindGroupLayoutEntry,
> {
    seq![
        BindGroupLayoutEntry {
            binding: 0,
            visibility: ShaderStages::VertexFragment,
            ty: BindingType::Buffer {
                ty: BufferBindingType::Uniform,
                has_dynamic_offset: true,
                min_binding_size: tilemap_uniform_size,
            },
        },
    ]
}

/// The layout of a tilemap's storage bind group: a storage buffer that the
/// vertex stage reads.
pub open spec fn tilemap_storage_layout_entries() -> Seq<BindGroupLayoutEntry> {
    seq![
        BindGroupLayoutEntry {
            binding: 0,
            visibility: ShaderStages::Vertex,
            ty: BindingType::Buffer {
                ty: BufferBindingType::Storage { read_only: true },
                has_dynamic_offset: false,
                min_binding_size: STORAGE_ENTRY_SIZE,
            },
        },
    ]
}

/// The layout of a color texture's bind group: the texture and its sampler,
/// for the fragment stage. The texture is one image where the tiles come from
/// an atlas, and an array of images where they do not.
pub open spec fn color_texture_layout_entries(atlas: bool) -> Seq<BindGroupLayoutEntry> {
    seq![
        BindGroupLayoutEntry {
            binding: 0,
            visibility: ShaderStages::Fragment,
            ty: BindingType::Texture {
                filterable: true,
                view_dimension: if atlas {
                    TextureViewDimension::D2
                } else {
                    TextureViewDimension::D2Array
                },
                multisampled: false,
            },
        },
        BindGroupLayoutEntry {
            binding: 1,
            visibility: ShaderStages::Fragment,
            ty: BindingType::FilteringSampler,
        },
    ]
}

/// The four bind group layouts of the tilemap pipeline.
#[derive(Clone, Debug)]
pub struct TilemapBindGroupLayouts {
    pub view_layout: Vec<BindGroupLayoutEntry>,
    pub tilemap_uniforms_layout: Vec<BindGroupLayoutEntry>,
    pub tilemap_storage_layout: Vec<BindGroupLayoutEntry>,
    pub color_texture_layout: Vec<BindGroupLayoutEntry>,
}

impl TilemapBindGroupLayouts {
    /// Describes the four layouts, for uniforms of the given sizes in bytes.
    pub fn new(view_uniform_size: u64, tilemap_uniform_size: u64, atlas: bool) -> (layouts:
        TilemapBindGroupLayouts)
        ensures
            layouts.view_layout@ == view_layout_entries(view_uniform_size),
            layouts.tilemap_uniforms_layout@ == tilemap_uniforms_layout_entries(
                tilemap_uniform_size,
            ),
            layouts.tilemap_storage_layout@ == tilemap_storage_layout_entries(),
            layouts.color_texture_layout@ == color_texture_layout_entries(atlas),
    {
        let mut view_layout: Vec<BindGroupLayoutEntry> = Vec::new();
        view_layout.push(
            BindGroupLayoutEntry {
                binding: 0,
                visibility: ShaderStages::VertexFragment,
                ty: BindingType::Buffer {
                    ty: BufferBindingType::Uniform,
                    has_dynamic_offset: true,
                    min_binding_size: view_uniform_size,
                },
            },
        );
        let mut tilemap_uniforms_layout: Vec<BindGroupLayoutEntry> = Vec::new();
        tilemap_uniforms_layout.push(
            BindGroupLayoutEntry {
                binding: 0,
                visibility: ShaderStages::VertexFragment,
                ty: BindingType::Buffer {
                    ty: BufferBindingType::Uniform,
                    has_dynamic_offset: true,
                    min_binding_size: tilemap_uniform_size,
                },
            },
        );
        let mut tilemap_storage_layout: Vec<BindGroupLayoutEntry> = Vec::new();
        tilemap_storage_layout.push(
            BindGroupLayoutEntry {
                binding: 0,
                visibility: ShaderStages::Vertex,
                ty: BindingType::Buffer {
                    ty: BufferBindingType::Storage { read_only: true },
                    has_dynamic_offset: false,
                    min_binding_size: STORAGE_ENTRY_SIZE,
                },
            },
        );
        let view_dimension = if atlas {
            TextureViewDimension::D2
        } else {
            TextureViewDimension::D2Array
        };
        let mut color_texture_layout: Vec<BindGroupLayoutEntry> = Vec::new();
        color_texture_layout.push(
            BindGroupLayoutEntry {
                binding: 0,
                visibility: ShaderStages::Fragment,
                ty: BindingType::Texture { filterable: true, view_dimension, multisampled: false },
            },
        );
        color_texture_layout.push(
            BindGroupLayoutEntry {
                binding: 1,
                visibility: ShaderStages::Fragment,
                ty: BindingType::FilteringSampler,
            },
        );
        proof {
            assert(view_layout@ =~= view_layout_entries(view_uniform_size));
            assert(tilemap_uniforms_layout@ =~= tilemap_uniforms_layout_entries(
                tilemap_uniform_size,
            ));
            assert(tilemap_storage_layout@ =~= tilemap_storage_layout_entries());
            assert(color_texture_layout@ =~= color_texture_layout_entries(atlas));
        }
        TilemapBindGroupLayouts {
            view_layout,
            tilemap_uniforms_layout,
            tilemap_storage_layout,
            color_texture_layout,
        }
    }
}

} // verus!
