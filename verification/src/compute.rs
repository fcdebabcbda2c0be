use vstd::prelude::*;

use crate::binding::{BindingLayout, BindingLayoutEntry, TextureViewDimension, SHADER_STAGE_COMPUTE};
use crate::component::{ComponentDetails, ComponentId, EntityId};
use crate::engine_types::EngineTypes;
use crate::ids::{is_hash_digest_id, time_based_id, NIL_ID};
use crate::material::ShaderAttachment;

verus! {

/// The abstract state of a compute shader dispatch.
pub ghost struct ComputeView<E: EngineTypes> {
    pub attachments: Seq<ShaderAttachment<E>>,
    pub shader_path: Seq<char>,
    pub is_spirv: bool,
    pub workgroup_counts: (u32, u32, u32),
    pub bind_group_layout: Option<E::BindGroupLayout>,
    pub bind_group: Option<E::BindGroup>,
    pub pipeline: Option<E::ComputePipeline>,
    pub id: ComponentId,
    pub is_enabled: bool,
    pub is_initialized: bool,
    pub parent_entity: EntityId,
    pub iterate_count: usize,
}

/// A compute shader with its attachments and the workgroups it is dispatched over.
#[derive(Debug)]
pub struct Compute<E: EngineTypes> {
    attachments: Vec<ShaderAttachment<E>>,
    shader_path: String,
    is_spirv: bool,
    workgroup_counts: (u32, u32, u32),
    bind_group_layout: Option<E::BindGroupLayout>,
    bind_group: Option<E::BindGroup>,
    pipeline: Option<E::ComputePipeline>,
    id: ComponentId,
    is_enabled: bool,
    is_initialized: bool,
    parent_entity: EntityId,
    iterate_count: usize,
}

impl<E: EngineTypes> View for Compute<E> {
    type V = ComputeView<E>;

    closed spec fn view(&self) -> ComputeView<E> {
        ComputeView {
            attachments: self.attachments@,
            shader_path: self.shader_path@,
            is_spirv: self.is_spirv,
            workgroup_counts: self.workgroup_counts,
            bind_group_layout: self.bind_group_layout,
            bind_group: self.bind_group,
            pipeline: self.pipeline,
            id: self.id,
            is_enabled: self.is_enabled,
            is_initialized: self.is_initialized,
            parent_entity: self.parent_entity,
            iterate_count: self.iterate_count,
        }
    }
}

/// The layout entry of an attachment at `binding` in a compute shader's bind group: storage
/// textures and buffers are seen by the compute stage only, sampled textures by their own
/// stages; cubemaps are seen as 2D arrays.
pub open spec fn compute_layout_entry<E: EngineTypes>(attachment: ShaderAttachment<E>, binding: u32) -> BindingLayoutEntry<E::TextureFormat> {
    match attachment {
        ShaderAttachment::Texture(tex) => {
            let props = tex.texture_bundle.spec_properties();
            let view_dimension = if props.is_cubemap {
                TextureViewDimension::D2Array
            } else {
                TextureViewDimension::D2
            };
            match props.storage_texture {
                Some(access) => BindingLayoutEntry {
                    binding,
                    visibility: SHADER_STAGE_COMPUTE,
                    layout: BindingLayout::StorageTexture { access, format: props.format, view_dimension },
                },
                None => BindingLayoutEntry {
                    binding,
                    visibility: tex.visibility,
                    layout: BindingLayout::Texture { filterable: props.is_filtered, view_dimension, multisampled: false },
                },
            }
        },
        ShaderAttachment::Buffer(buf) => BindingLayoutEntry {
            binding,
            visibility: SHADER_STAGE_COMPUTE,
            layout: BindingLayout::Buffer { ty: buf.buffer_type, has_dynamic_offset: false },
        },
    }
}

impl<E: EngineTypes> Compute<E> {
    pub fn builder() -> (b: ComputeBuilder<E>)
        ensures
            b@ == default_compute_builder::<E>(),
    {
        ComputeBuilder::default_builder()
    }

    /// The layout entry of `attachment` at `binding` in a compute shader's bind group.
    pub fn create_bind_group_layout_entry(attachment: &ShaderAttachment<E>, binding: u32) -> (e: BindingLayoutEntry<E::TextureFormat>)
        ensures
            e == compute_layout_entry(*attachment, binding),
    {
        match attachment {
            ShaderAttachment::Texture(tex) => {
                let props = tex.texture_bundle.properties();
                let view_dimension = if props.is_cubemap {
                    TextureViewDimension::D2Array
                } else {
                    TextureViewDimension::D2
                };
                match props.storage_texture {
                    Some(access) => BindingLayoutEntry {
                        binding,
                        visibility: SHADER_STAGE_COMPUTE,
                        layout: BindingLayout::StorageTexture { access, format: props.format, view_dimension },
                    },
                    None => BindingLayoutEntry {
                        binding,
                        visibility: tex.visibility,
                        layout: BindingLayout::Texture { filterable: props.is_filtered, view_dimension, multisampled: false },
                    },
                }
            },
            ShaderAttachment::Buffer(buf) => BindingLayoutEntry {
                binding,
                visibility: SHADER_STAGE_COMPUTE,
                layout: BindingLayout::Buffer { ty: buf.buffer_type, has_dynamic_offset: false },
            },
        }
    }

    /// The layout of the compute shader's bind group: one entry per attachment, at its index.
    pub fn bind_group_layout_entries(&self) -> (r: Vec<BindingLayoutEntry<E::TextureFormat>>)
        ensures
            r@ == Seq::new(self@.attachments.len(), |i: int| compute_layout_entry(self@.attachments[i], i as u32)),
    {
        let mut entries: Vec<BindingLayoutEntry<E::TextureFormat>> = Vec::new();
        let mut i: usize = 0;
        while i < self.attachments.len()
            invariant
                0 <= i <= self.attachments@.len(),
                entries@ =~= Seq::new(i as nat, |j: int| compute_layout_entry(self.attachments@[j], j as u32)),
            decreases self.attachments@.len() - i,
        {
            let entry = Self::create_bind_group_layout_entry(&self.attachments[i], i as u32);
            entries.push(entry);
            i = i + 1;
        }
        entries
    }

    /// Records the GPU objects built for the compute shader; it is initialized from then on.
    pub fn set_gpu_objects(&mut self, layout: E::BindGroupLayout, bind_group: E::BindGroup, pipeline: E::ComputePipeline)
        ensures
            final(self)@ == (ComputeView {
                bind_group_layout: Some(layout),
                bind_group: Some(bind_group),
                pipeline: Some(pipeline),
                is_initialized: true,
                ..old(self)@
            }),
    {
        self.bind_group_layout = Some(layout);
        self.bind_group = Some(bind_group);
        self.pipeline = Some(pipeline);
        self.is_initialized = true;
    }

    /// What a dispatch needs: the pipeline, the bind group and the workgroup counts; `None`
    /// while the compute shader is not initialized.
    pub fn dispatch_state(&self) -> (r: Option<(&E::ComputePipeline, &E::BindGroup, (u32, u32, u32))>)
        ensures
            r is Some <==> (self@.pipeline is Some && self@.bind_group is Some),
            r matches Some(d) ==> *d.0 == self@.pipeline.unwrap() && *d.1 == self@.bind_group.unwrap()
                && d.2 == self@.workgroup_counts,
    {
        match (&self.pipeline, &self.bind_group) {
            (Some(p), Some(g)) => Some((p, g, self.workgroup_counts)),
            _ => None,
        }
    }

    pub fn attachments(&self) -> (r: &[ShaderAttachment<E>])
        ensures
            r@ == self@.attachments,
    {
        self.attachments.as_slice()
    }

    pub fn shader_path(&self) -> (r: &str)
        ensures
            r@ == self@.shader_path,
    {
        self.shader_path.as_str()
    }

    pub fn is_spirv(&self) -> (r: bool)
        ensures
            r == self@.is_spirv,
    {
        self.is_spirv
    }

    pub fn iterate_count(&self) -> (r: usize)
        ensures
            r == self@.iterate_count,
    {
        self.iterate_count
    }
}

impl<E: EngineTypes> ComponentDetails for Compute<E> {
    open spec fn spec_id(&self) -> ComponentId {
        self@.id
    }

    open spec fn spec_initialized(&self) -> bool {
        self@.is_initialized
    }

    open spec fn spec_parent(&self) -> EntityId {
        self@.parent_entity
    }

    open spec fn spec_enabled(&self) -> bool {
        self@.is_enabled
    }

    fn id(&self) -> (r: ComponentId) {
        self.id
    }

    fn is_initialized(&self) -> (r: bool) {
        self.is_initialized
    }

    fn set_initialized(&mut self) {
        self.is_initialized = true;
    }

    fn parent_entity_id(&self) -> (r: EntityId) {
        self.parent_entity
    }

    fn set_parent_entity(&mut self, parent_id: EntityId) {
        self.parent_entity = parent_id;
    }

    fn is_enabled(&self) -> (r: bool) {
        self.is_enabled
    }

    fn set_enabled_state(&mut self, enabled_state: bool) {
        self.is_enabled = enabled_state;
    }

    fn rendering_order(&self) -> (r: i32) {
        0
    }
}

/// The abstract state of a compute builder.
pub ghost struct ComputeBuilderView<E: EngineTypes> {
    pub attachments: Seq<ShaderAttachment<E>>,
    pub shader_path: Seq<char>,
    pub is_spirv: bool,
    pub workgroup_counts: (u32, u32, u32),
    pub id: ComponentId,
    pub enabled: bool,
    pub iterate_count: usize,
}

/// Builds a [`Compute`] field by field.
#[derive(Debug)]
pub struct ComputeBuilder<E: EngineTypes> {
    attachments: Vec<ShaderAttachment<E>>,
    shader_path: String,
    is_spirv: bool,
    workgroup_counts: (u32, u32, u32),
    id: ComponentId,
    enabled: bool,
    iterate_count: usize,
}

impl<E: EngineTypes> View for ComputeBuilder<E> {
    type V = ComputeBuilderView<E>;

    closed spec fn view(&self) -> ComputeBuilderView<E> {
        ComputeBuilderView {
            attachments: self.attachments@,
            shader_path: self.shader_path@,
            is_spirv: self.is_spirv,
            workgroup_counts: self.workgroup_counts,
            id: self.id,
            enabled: self.enabled,
            iterate_count: self.iterate_count,
        }
    }
}

/// No attachments, an empty shader path, WGSL, no workgroups, no id yet, enabled, dispatched
/// once per frame.
pub open spec fn default_compute_builder<E: EngineTypes>() -> ComputeBuilderView<E> {
    ComputeBuilderView {
        attachments: Seq::empty(),
        shader_path: Seq::empty(),
        is_spirv: false,
        workgroup_counts: (0, 0, 0),
        id: 0,
        enabled: true,
        iterate_count: 1,
    }
}

impl<E: EngineTypes> Default for ComputeBuilder<E> {
    fn default() -> (b: Self)
        ensures
            b@ == default_compute_builder::<E>(),
    {
        ComputeBuilder::default_builder()
    }
}

impl<E: EngineTypes> ComputeBuilder<E> {
    pub fn default_builder() -> (b: Self)
        ensures
            b@ == default_compute_builder::<E>(),
    {
        ComputeBuilder {
            attachments: Vec::new(),
            shader_path: String::new(),
            is_spirv: false,
            workgroup_counts: (0, 0, 0),
            id: 0,
            enabled: true,
            iterate_count: 1,
        }
    }

    pub fn attachments(self, attachments: Vec<ShaderAttachment<E>>) -> (b: Self)
        ensures
            b@ == (ComputeBuilderView { attachments: attachments@, ..self@ }),
    {
        ComputeBuilder { attachments, ..self }
    }

    pub fn shader_path(self, shader_path: String) -> (b: Self)
        ensures
            b@ == (ComputeBuilderView { shader_path: shader_path@, ..self@ }),
    {
        ComputeBuilder { shader_path, ..self }
    }

    pub fn is_spirv(self, is_spirv: bool) -> (b: Self)
        ensures
            b@ == (ComputeBuilderView { is_spirv, ..self@ }),
    {
        ComputeBuilder { is_spirv, ..self }
    }

    pub fn workgroup_counts(self, workgroup_counts: (u32, u32, u32)) -> (b: Self)
        ensures
            b@ == (ComputeBuilderView { workgroup_counts, ..self@ }),
    {
        ComputeBuilder { workgroup_counts, ..self }
    }

    pub fn id(self, id: ComponentId) -> (b: Self)
        ensures
            b@ == (ComputeBuilderView { id, ..self@ }),
    {
        ComputeBuilder { id, ..self }
    }

    pub fn enabled(self, enabled: bool) -> (b: Self)
        ensures
            b@ == (ComputeBuilderView { enabled, ..self@ }),
    {
        ComputeBuilder { enabled, ..self }
    }

    pub fn iterate_count(self, iterate_count: usize) -> (b: Self)
        ensures
            b@ == (ComputeBuilderView { iterate_count, ..self@ }),
    {
        ComputeBuilder { iterate_count, ..self }
    }

    /// The compute shader with the builder's fields, not yet initialized and attached to no
    /// entity. An id of zero means "none given": the compute shader then gets one made from
    /// the clock.
    pub fn build(self) -> (c: Compute<E>)
        ensures
            c@.attachments == self@.attachments,
            c@.shader_path == self@.shader_path,
            c@.is_spirv == self@.is_spirv,
            c@.workgroup_counts == self@.workgroup_counts,
            c@.bind_group_layout is None,
            c@.bind_group is None,
            c@.pipeline is None,
            self@.id != 0 ==> c@.id == self@.id,
            self@.id == 0 ==> is_hash_digest_id(c@.id),
            c@.is_enabled == self@.enabled,
            !c@.is_initialized,
            c@.parent_entity == NIL_ID,
            c@.iterate_count == self@.iterate_count,
    {
        let id = if self.id == 0 {
            time_based_id()
        } else {
            self.id
        };
        Compute {
            attachments: self.attachments,
            shader_path: self.shader_path,
            is_spirv: self.is_spirv,
            workgroup_counts: self.workgroup_counts,
            bind_group_layout: None,
            bind_group: None,
            pipeline: None,
            id,
            is_enabled: self.enabled,
            is_initialized: false,
            parent_entity: NIL_ID,
            iterate_count: self.iterate_count,
        }
    }
}

} // verus!
