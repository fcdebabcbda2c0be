use vstd::prelude::*;

use crate::texture::StorageTextureAccess;

verus! {

/// Shader stage bits, as in a GPU bind group layout entry's visibility.
pub const SHADER_STAGE_VERTEX: u32 = 1;

pub const SHADER_STAGE_FRAGMENT: u32 = 2;

pub const SHADER_STAGE_COMPUTE: u32 = 4;

/// How a buffer is bound.
#[derive(Debug, Clone, Copy, PartialEq, Eq)]
pub enum BufferBindingType {
    Uniform,
    Storage { read_only: bool },
}

/// How a shader sees the dimensions of a bound texture view.
#[derive(Debug, Clone, Copy, PartialEq, Eq)]
pub enum TextureViewDimension {
    D2,
    D2Array,
    Cube,
}

/// The kind of resource at one binding of a bind group layout.
#[derive(Debug, Clone, Copy)]
pub enum BindingLayout<F> {
    Texture { filterable: bool, view_dimension: TextureViewDimension, multisampled: bool },
    StorageTexture { access: StorageTextureAccess, format: F, view_dimension: TextureViewDimension },
    Buffer { ty: BufferBindingType, has_dynamic_offset: bool },
    Sampler { filtering: bool },
}

/// One entry of a bind group layout: a binding number, the stages that see it, and what is
/// bound there.
#[derive(Debug, Clone, Copy)]
pub struct BindingLayoutEntry<F> {
    pub binding: u32,
    pub visibility: u32,
    pub layout: BindingLayout<F>,
}

} // verus!
