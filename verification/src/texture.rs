use vstd::prelude::*;

use crate::binding::TextureViewDimension;

verus! {

/// How a storage texture may be accessed from a shader.
#[derive(Debug, Clone, Copy, PartialEq, Eq)]
pub enum StorageTextureAccess {
    WriteOnly,
    ReadOnly,
    ReadWrite,
    Atomic,
}

/// What a texture is made for and how shaders see it. The texel format is carried as given.
#[derive(Debug, Clone, Copy)]
pub struct TextureProperties<F> {
    pub format: F,
    pub storage_texture: Option<StorageTextureAccess>,
    pub is_cubemap: bool,
    pub is_filtered: bool,
    pub is_sampled: bool,
    pub is_hdr: bool,
    /// Bits of the texture usages added to those the texture needs anyway.
    pub extra_usages: u32,
}

/// Bit of the texture usage that lets data be copied into a texture.
pub const TEXTURE_USAGE_COPY_DST: u32 = 2;

/// Bit of the texture usage that lets a texture be bound in a bind group.
pub const TEXTURE_USAGE_TEXTURE_BINDING: u32 = 4;

/// Bit of the texture usage that lets a texture be bound as a storage texture.
pub const TEXTURE_USAGE_STORAGE_BINDING: u32 = 8;

/// Bit of the texture usage that lets a texture be rendered to.
pub const TEXTURE_USAGE_RENDER_ATTACHMENT: u32 = 16;

/// How a texture of given properties is created and viewed.
#[derive(Debug, Clone, Copy, PartialEq, Eq)]
pub struct TexturePlan {
    pub width: u32,
    pub height: u32,
    pub depth_or_array_layers: u32,
    /// Usage bits of the texture.
    pub usage: u32,
    /// The dimension of the texture's view.
    pub view_dimension: TextureViewDimension,
    /// The layers the view covers, when it must say so.
    pub array_layer_count: Option<u32>,
}

impl<F> TextureProperties<F> {
    /// The properties of a plain sampled, filtered 2D texture of the given format.
    pub fn with_format(format: F) -> (p: Self)
        ensures
            p.format == format,
            p.storage_texture.is_none(),
            !p.is_cubemap,
            p.is_filtered,
            p.is_sampled,
            !p.is_hdr,
            p.extra_usages == TEXTURE_USAGE_TEXTURE_BINDING,
    {
        TextureProperties {
            format,
            storage_texture: None,
            is_cubemap: false,
            is_filtered: true,
            is_sampled: true,
            is_hdr: false,
            extra_usages: TEXTURE_USAGE_TEXTURE_BINDING,
        }
    }

    /// The properties of a depth texture of the given format: sampled, not filtered, and
    /// usable as a render attachment and in bind groups.
    pub fn depth(format: F) -> (p: Self)
        ensures
            p.format == format,
            p.storage_texture.is_none(),
            !p.is_cubemap,
            !p.is_filtered,
            p.is_sampled,
            !p.is_hdr,
            p.extra_usages == TEXTURE_USAGE_RENDER_ATTACHMENT | TEXTURE_USAGE_TEXTURE_BINDING,
    {
        TextureProperties {
            format,
            storage_texture: None,
            is_cubemap: false,
            is_filtered: false,
            is_sampled: true,
            is_hdr: false,
            extra_usages: TEXTURE_USAGE_RENDER_ATTACHMENT | TEXTURE_USAGE_TEXTURE_BINDING,
        }
    }

    /// The properties a high dynamic range image is uploaded with: not sampled, filtered or a
    /// cubemap, and open to copies into it.
    pub fn for_hdr_upload(self) -> (p: Self)
        ensures
            p == (TextureProperties {
                is_sampled: false,
                is_cubemap: false,
                is_filtered: false,
                extra_usages: self.extra_usages | TEXTURE_USAGE_COPY_DST,
                ..self
            }),
    {
        TextureProperties {
            is_sampled: false,
            is_cubemap: false,
            is_filtered: false,
            extra_usages: self.extra_usages | TEXTURE_USAGE_COPY_DST,
            ..self
        }
    }

    /// How a `width` by `height` texture of these properties is created: six layers for a
    /// cubemap; usable as a copy target and as a storage texture or a bound texture, besides
    /// the extra usages; viewed as a cube (all six layers), as a 2D array when it is a storage
    /// cubemap, and in 2D otherwise.
    pub fn texture_plan(&self, width: u32, height: u32) -> (p: TexturePlan)
        ensures
            p.width == width,
            p.height == height,
            p.depth_or_array_layers == (if self.is_cubemap { 6u32 } else { 1u32 }),
            p.usage == self.extra_usages | TEXTURE_USAGE_COPY_DST | (if self.storage_texture is Some {
                TEXTURE_USAGE_STORAGE_BINDING
            } else {
                TEXTURE_USAGE_TEXTURE_BINDING
            }),
            p.view_dimension == (if !self.is_cubemap {
                TextureViewDimension::D2
            } else if self.storage_texture is Some {
                TextureViewDimension::D2Array
            } else {
                TextureViewDimension::Cube
            }),
            p.array_layer_count == (if self.is_cubemap && self.storage_texture is None {
                Some(6u32)
            } else {
                None
            }),
    {
        let layers = self.depth_or_array_layers();
        let binding = if self.storage_texture.is_some() {
            TEXTURE_USAGE_STORAGE_BINDING
        } else {
            TEXTURE_USAGE_TEXTURE_BINDING
        };
        let view_dimension = if !self.is_cubemap {
            TextureViewDimension::D2
        } else if self.storage_texture.is_some() {
            TextureViewDimension::D2Array
        } else {
            TextureViewDimension::Cube
        };
        TexturePlan {
            width,
            height,
            depth_or_array_layers: layers,
            usage: self.extra_usages | TEXTURE_USAGE_COPY_DST | binding,
            view_dimension,
            array_layer_count: if self.is_cubemap && self.storage_texture.is_none() {
                Some(layers)
            } else {
                None
            },
        }
    }

    /// The layers of a texture of these properties: six faces for a cubemap, else one.
    pub fn depth_or_array_layers(&self) -> (n: u32)
        ensures
            n == (if self.is_cubemap { 6u32 } else { 1u32 }),
    {
        if self.is_cubemap {
            6
        } else {
            1
        }
    }
}

/// A texture view together with the properties it was made with.
#[derive(Debug)]
pub struct TextureBundle<V, F> {
    view: V,
    properties: TextureProperties<F>,
}

impl<V, F: Copy> TextureBundle<V, F> {
    pub closed spec fn spec_view(&self) -> V {
        self.view
    }

    pub closed spec fn spec_properties(&self) -> TextureProperties<F> {
        self.properties
    }

    pub fn new(view: V, properties: TextureProperties<F>) -> (b: Self)
        ensures
            b.spec_view() == view,
            b.spec_properties() == properties,
    {
        TextureBundle { view, properties }
    }

    pub fn view(&self) -> (v: &V)
        ensures
            *v == self.spec_view(),
    {
        &self.view
    }

    pub fn view_mut(&mut self) -> (v: &mut V)
        ensures
            *v == old(self).spec_view(),
            final(self).spec_view() == *final(v),
            final(self).spec_properties() == old(self).spec_properties(),
    {
        &mut self.view
    }

    pub fn properties(&self) -> (p: TextureProperties<F>)
        ensures
            p == self.spec_properties(),
    {
        self.properties
    }
}

} // verus!
