use std::collections::{HashMap, HashSet};
use std::ops::Range;

use vstd::prelude::*;

use crate::binding::{BindingLayout, BindingLayoutEntry, BufferBindingType, TextureViewDimension};
use crate::component::ComponentDetails;
use crate::engine_types::EngineTypes;
use crate::ids::{Id, NIL_ID};
use crate::texture::TextureBundle;

verus! {

/// Why a texture attachment could not take new data.
#[derive(Debug, Clone, Copy, PartialEq, Eq)]
pub enum ShaderAttachmentError {
    /// The updated texture is larger than the existing texture, but no new texture size was
    /// specified.
    NoNewTextureSize,
}

/// Why an operation on a material failed.
#[derive(Debug, Clone, Copy, PartialEq, Eq)]
pub enum MaterialError {
    /// The render pipeline was not created: the material was not initialized.
    PipelineNotInitialized(Id),
    /// The targeted attachment is not of the kind the update was for; `target_is_texture`
    /// tells whether the targeted attachment is a texture.
    InvalidAttachmentUpdate { target: usize, target_is_texture: bool },
    /// The targeted attachment does not exist.
    AttachmentNotFound(usize),
    /// The shader attachment refused the update.
    ShaderAttachmentError(ShaderAttachmentError),
}

/// A texture bound to a shader.
#[derive(Debug)]
pub struct ShaderTextureAttachment<E: EngineTypes> {
    pub texture_bundle: TextureBundle<E::TextureView, E::TextureFormat>,
    /// Shader stage bits that see the texture.
    pub visibility: u32,
}

/// What happens to a texture attachment's texture when new data is written to it.
#[derive(Debug, Clone, Copy, PartialEq, Eq)]
pub enum TextureUpdate {
    /// The data fits: it is written into the existing texture.
    WriteInPlace,
    /// The data does not fit: a new texture of this size (width, height, layers) replaces it.
    Recreate { width: u32, height: u32, depth_or_array_layers: u32 },
}

impl<E: EngineTypes> ShaderTextureAttachment<E> {
    /// Decides how `data_len` bytes are written to a texture of `width` by `height` texels in
    /// `layers` layers, of `pixel_size` bytes each: in place when they fit, else into a new
    /// texture of `new_tex_size`, which must then be given.
    pub fn plan_texture_update(
        data_len: usize,
        pixel_size: u32,
        width: u32,
        height: u32,
        layers: u32,
        new_tex_size: Option<(u32, u32, u32)>,
    ) -> (r: Result<TextureUpdate, ShaderAttachmentError>)
        ensures
            data_len <= pixel_size * width * height * layers ==> r == Ok::<TextureUpdate, ShaderAttachmentError>(TextureUpdate::WriteInPlace),
            data_len > pixel_size * width * height * layers ==> r == match new_tex_size {
                Some(s) => Ok(TextureUpdate::Recreate { width: s.0, height: s.1, depth_or_array_layers: s.2 }),
                None => Err(ShaderAttachmentError::NoNewTextureSize),
            },
    {
        let p: u128 = pixel_size as u128;
        let w: u128 = width as u128;
        let h: u128 = height as u128;
        let l: u128 = layers as u128;
        assert(p * w <= 0xffff_ffff_ffff_ffffu128) by (nonlinear_arith)
            requires
                p <= u32::MAX,
                w <= u32::MAX,
        ;
        let pw: u128 = p * w;
        assert(pw * h <= 0xffff_ffff_ffff_ffff_ffff_ffffu128) by (nonlinear_arith)
            requires
                pw <= 0xffff_ffff_ffff_ffffu128,
                h <= u32::MAX,
        ;
        let pwh: u128 = pw * h;
        assert(pwh * l <= 0xffff_ffff_ffff_ffff_ffff_ffff_ffff_ffffu128) by (nonlinear_arith)
            requires
                pwh <= 0xffff_ffff_ffff_ffff_ffff_ffffu128,
                l <= u32::MAX,
        ;
        let capacity: u128 = pwh * l;
        if data_len as u128 <= capacity {
            Ok(TextureUpdate::WriteInPlace)
        } else {
            match new_tex_size {
                Some(size) => Ok(TextureUpdate::Recreate { width: size.0, height: size.1, depth_or_array_layers: size.2 }),
                None => Err(ShaderAttachmentError::NoNewTextureSize),
            }
        }
    }
}

/// Whether writing `data_len` bytes to a buffer of `buffer_size` bytes needs a new, larger
/// buffer: the data is written in place when it fits, and the buffer is recreated with the
/// data otherwise.
pub fn buffer_reallocation_needed(data_len: usize, buffer_size: u64) -> (r: bool)
    ensures
        r == (data_len > buffer_size),
{
    !(data_len as u64 <= buffer_size)
}

/// Buffer usage bits.
pub const BUFFER_USAGE_UNIFORM: u32 = 64;

pub const BUFFER_USAGE_STORAGE: u32 = 128;

/// A GPU buffer bound to a shader.
#[derive(Debug)]
pub struct ShaderBufferAttachment<E: EngineTypes> {
    pub buffer: E::Buffer,
    /// Shader stage bits that see the buffer.
    pub visibility: u32,
    pub buffer_type: BufferBindingType,
}

impl<E: EngineTypes> ShaderBufferAttachment<E> {
    /// The usage bits of a buffer created for a binding of `buffer_type`: uniform or storage,
    /// together with `extra_usages`.
    pub fn usages_for(buffer_type: BufferBindingType, extra_usages: u32) -> (u: u32)
        ensures
            u == (match buffer_type {
                BufferBindingType::Uniform => BUFFER_USAGE_UNIFORM,
                BufferBindingType::Storage { .. } => BUFFER_USAGE_STORAGE,
            }) | extra_usages,
    {
        (match buffer_type {
            BufferBindingType::Uniform => BUFFER_USAGE_UNIFORM,
            BufferBindingType::Storage { .. } => BUFFER_USAGE_STORAGE,
        }) | extra_usages
    }

    pub fn buffer(&self) -> (b: &E::Buffer)
        ensures
            *b == self.buffer,
    {
        &self.buffer
    }

    pub fn visibility(&self) -> (v: u32)
        ensures
            v == self.visibility,
    {
        self.visibility
    }

    pub fn buffer_type(&self) -> (t: BufferBindingType)
        ensures
            t == self.buffer_type,
    {
        self.buffer_type
    }
}

/// A texture or a buffer bound to a shader.
#[derive(Debug)]
pub enum ShaderAttachment<E: EngineTypes> {
    Texture(ShaderTextureAttachment<E>),
    Buffer(ShaderBufferAttachment<E>),
}

/// Where a pipeline for a material comes from: parameters for a new one, or the id of an
/// existing one.
#[derive(Debug)]
pub enum PipelineOptions {
    Descriptor(crate::pipeline::PipelineParameters),
    Id(Id),
}

/// The abstract state of a material.
pub ghost struct MaterialView<E: EngineTypes> {
    pub id: Id,
    pub entities_attached: Set<Id>,
    pub component_ranges: Seq<Range<usize>>,
    pub attachments: Seq<ShaderAttachment<E>>,
    pub bind_group_layout: Option<E::BindGroupLayout>,
    pub bind_group: Option<E::BindGroup>,
    pub immediate_data: Seq<u8>,
    pub is_initialized: bool,
    pub is_enabled: bool,
    pub parent_entity: Id,
}

/// A set of shader attachments together with the entities whose components are drawn with
/// them.
#[derive(Debug)]
pub struct Material<E: EngineTypes> {
    id: Id,
    entities_attached: HashSet<Id>,
    component_ranges: Vec<Range<usize>>,
    attachments: Vec<ShaderAttachment<E>>,
    bind_group_layout: Option<E::BindGroupLayout>,
    bind_group: Option<E::BindGroup>,
    immediate_data: Vec<u8>,
    is_initialized: bool,
    is_enabled: bool,
    parent_entity: Id,
}

impl<E: EngineTypes> View for Material<E> {
    type V = MaterialView<E>;

    closed spec fn view(&self) -> MaterialView<E> {
        MaterialView {
            id: self.id,
            entities_attached: self.entities_attached@,
            component_ranges: self.component_ranges@,
            attachments: self.attachments@,
            bind_group_layout: self.bind_group_layout,
            bind_group: self.bind_group,
            immediate_data: self.immediate_data@,
            is_initialized: self.is_initialized,
            is_enabled: self.is_enabled,
            parent_entity: self.parent_entity,
        }
    }
}

/// The layout entry of an attachment at `binding` in a material's bind group.
pub open spec fn material_layout_entry<E: EngineTypes>(attachment: ShaderAttachment<E>, binding: u32) -> BindingLayoutEntry<E::TextureFormat> {
    match attachment {
        ShaderAttachment::Texture(tex) => BindingLayoutEntry {
            binding,
            visibility: tex.visibility,
            layout: BindingLayout::Texture {
                filterable: tex.texture_bundle.spec_properties().is_filtered,
                view_dimension: if tex.texture_bundle.spec_properties().is_cubemap {
                    TextureViewDimension::Cube
                } else {
                    TextureViewDimension::D2
                },
                multisampled: false,
            },
        },
        ShaderAttachment::Buffer(buf) => BindingLayoutEntry {
            binding,
            visibility: buf.visibility,
            layout: BindingLayout::Buffer { ty: BufferBindingType::Uniform, has_dynamic_offset: false },
        },
    }
}

/// Which samplers the texture attachments of `attachments` need, non-filtering first and
/// filtering second, each with the union of the texture attachments' stage bits.
pub open spec fn samplers_needed_for<E: EngineTypes>(attachments: Seq<ShaderAttachment<E>>) -> [(bool, u32); 2]
    decreases attachments.len(),
{
    if attachments.len() == 0 {
        [(false, 0u32), (false, 0u32)]
    } else {
        let acc = samplers_needed_for(attachments.drop_last());
        match attachments.last() {
            ShaderAttachment::Texture(tex) => {
                let props = tex.texture_bundle.spec_properties();
                [
                    (acc[0].0 || (props.is_sampled && !props.is_filtered), acc[0].1 | tex.visibility),
                    (acc[1].0 || (props.is_sampled && props.is_filtered), acc[1].1 | tex.visibility),
                ]
            },
            ShaderAttachment::Buffer(_) => acc,
        }
    }
}

/// The sampler layout entries that follow `n` attachment entries: one per needed sampler,
/// non-filtering first.
pub open spec fn sampler_layout_entries<F>(needed: [(bool, u32); 2], n: nat) -> Seq<BindingLayoutEntry<F>> {
    let non_filtering: Seq<BindingLayoutEntry<F>> = if needed[0].0 {
        seq![BindingLayoutEntry { binding: n as u32, visibility: needed[0].1, layout: BindingLayout::Sampler { filtering: false } }]
    } else {
        Seq::empty()
    };
    let filtering: Seq<BindingLayoutEntry<F>> = if needed[1].0 {
        seq![BindingLayoutEntry { binding: (n + non_filtering.len()) as u32, visibility: needed[1].1, layout: BindingLayout::Sampler { filtering: true } }]
    } else {
        Seq::empty()
    };
    non_filtering + filtering
}

impl<E: EngineTypes> Material<E> {
    pub fn new(id: Id, attachments: Vec<ShaderAttachment<E>>, immediate_data: Vec<u8>, is_enabled: bool) -> (m: Self)
        ensures
            m@ == (MaterialView::<E> {
                id,
                entities_attached: Set::empty(),
                component_ranges: Seq::empty(),
                attachments: attachments@,
                bind_group_layout: None,
                bind_group: None,
                immediate_data: immediate_data@,
                is_initialized: false,
                is_enabled,
                parent_entity: NIL_ID,
            }),
    {
        Material {
            id,
            attachments,
            entities_attached: HashSet::new(),
            component_ranges: Vec::new(),
            bind_group_layout: None,
            bind_group: None,
            immediate_data,
            is_initialized: false,
            is_enabled,
            parent_entity: NIL_ID,
        }
    }

    /// The layout entry of `attachment` at `binding` in a material's bind group: textures as
    /// sampled float textures (cube views for cubemaps), buffers as uniform buffers.
    pub fn create_bind_group_layout_entry(attachment: &ShaderAttachment<E>, binding: u32) -> (e: BindingLayoutEntry<E::TextureFormat>)
        ensures
            e == material_layout_entry(*attachment, binding),
    {
        match attachment {
            ShaderAttachment::Texture(tex) => {
                let props = tex.texture_bundle.properties();
                BindingLayoutEntry {
                    binding,
                    visibility: tex.visibility,
                    layout: BindingLayout::Texture {
                        filterable: props.is_filtered,
                        view_dimension: if props.is_cubemap {
                            TextureViewDimension::Cube
                        } else {
                            TextureViewDimension::D2
                        },
                        multisampled: false,
                    },
                }
            },
            ShaderAttachment::Buffer(buf) => BindingLayoutEntry {
                binding,
                visibility: buf.visibility,
                layout: BindingLayout::Buffer { ty: BufferBindingType::Uniform, has_dynamic_offset: false },
            },
        }
    }

    /// Which samplers the material's textures need: index 0 non-filtering, index 1 filtering,
    /// each with the stage bits of all texture attachments.
    pub fn samplers_needed(&self) -> (r: [(bool, u32); 2])
        ensures
            r == samplers_needed_for(self@.attachments),
    {
        let mut acc: [(bool, u32); 2] = [(false, 0), (false, 0)];
        let mut i: usize = 0;
        while i < self.attachments.len()
            invariant
                0 <= i <= self.attachments@.len(),
                acc == samplers_needed_for(self.attachments@.take(i as int)),
            decreases self.attachments@.len() - i,
        {
            proof {
                assert(self.attachments@.take(i + 1).drop_last() =~= self.attachments@.take(i as int));
            }
            match &self.attachments[i] {
                ShaderAttachment::Texture(tex) => {
                    let props = tex.texture_bundle.properties();
                    acc = [
                        (acc[0].0 || (props.is_sampled && !props.is_filtered), acc[0].1 | tex.visibility),
                        (acc[1].0 || (props.is_sampled && props.is_filtered), acc[1].1 | tex.visibility),
                    ];
                },
                ShaderAttachment::Buffer(_) => {},
            }
            i = i + 1;
        }
        proof {
            assert(self.attachments@.take(i as int) =~= self.attachments@);
        }
        acc
    }

    /// The full layout of the material's bind group: one entry per attachment at its index,
    /// then the needed samplers after them.
    pub fn bind_group_layout_entries(&self) -> (r: Vec<BindingLayoutEntry<E::TextureFormat>>)
        ensures
            r@ == Seq::new(self@.attachments.len(), |i: int| material_layout_entry(self@.attachments[i], i as u32))
                + sampler_layout_entries(samplers_needed_for(self@.attachments), self@.attachments.len()),
    {
        let mut entries: Vec<BindingLayoutEntry<E::TextureFormat>> = Vec::new();
        let mut i: usize = 0;
        while i < self.attachments.len()
            invariant
                0 <= i <= self.attachments@.len(),
                entries@ =~= Seq::new(i as nat, |j: int| material_layout_entry(self.attachments@[j], j as u32)),
            decreases self.attachments@.len() - i,
        {
            let entry = Self::create_bind_group_layout_entry(&self.attachments[i], i as u32);
            entries.push(entry);
            i = i + 1;
        }
        let needed = self.samplers_needed();
        let n = self.attachments.len();
        let mut next: u128 = n as u128;
        if needed[0].0 {
            entries.push(BindingLayoutEntry { binding: next as u32, visibility: needed[0].1, layout: BindingLayout::Sampler { filtering: false } });
            next = next + 1;
        }
        if needed[1].0 {
            entries.push(BindingLayoutEntry { binding: next as u32, visibility: needed[1].1, layout: BindingLayout::Sampler { filtering: true } });
        }
        proof {
            let attach = Seq::new(self@.attachments.len(), |j: int| material_layout_entry(self@.attachments[j], j as u32));
            assert(entries@ =~= attach + sampler_layout_entries::<E::TextureFormat>(needed, n as nat));
        }
        entries
    }
}


/// `ranges` lists, in some order and once each, the component ranges that `groupings` gives
/// the entities of `attached`.
pub open spec fn ranges_of_attached(attached: Set<Id>, groupings: Map<Id, Range<usize>>, ranges: Seq<Range<usize>>) -> bool {
    exists|ids: Seq<Id>|
        #![trigger ids.to_set()]
        ids.no_duplicates() && ids.to_set() == groupings.dom().intersect(attached)
            && ranges == ids.map_values(|e: Id| groupings[e])
}

impl<E: EngineTypes> Material<E> {
    /// Draws the components of `entity_id` with this material from now on.
    pub fn attach_entity(&mut self, entity_id: Id)
        ensures
            final(self)@ == (MaterialView { entities_attached: old(self)@.entities_attached.insert(entity_id), ..old(self)@ }),
    {
        self.entities_attached.insert(entity_id);
    }

    /// Stops drawing the components of `entity_id` with this material.
    pub fn remove_entity(&mut self, entity_id: Id)
        ensures
            final(self)@ == (MaterialView { entities_attached: old(self)@.entities_attached.remove(entity_id), ..old(self)@ }),
    {
        self.entities_attached.remove(&entity_id);
    }

    /// Whether the components of `entity_id` are drawn with this material.
    pub fn is_entity_attached(&self, entity_id: Id) -> (r: bool)
        ensures
            r == self@.entities_attached.contains(entity_id),
    {
        self.entities_attached.contains(&entity_id)
    }

    pub fn bind_group_layout(&self) -> (r: Option<&E::BindGroupLayout>)
        ensures
            r == match self@.bind_group_layout {
                Some(l) => Some(&l),
                None => None::<&E::BindGroupLayout>,
            },
    {
        match &self.bind_group_layout {
            Some(l) => Some(l),
            None => None,
        }
    }

    pub fn bind_group(&self) -> (r: Option<&E::BindGroup>)
        ensures
            r == match self@.bind_group {
                Some(g) => Some(&g),
                None => None::<&E::BindGroup>,
            },
    {
        match &self.bind_group {
            Some(g) => Some(g),
            None => None,
        }
    }

    /// Records the bind group layout and bind group built from the material's attachments;
    /// the material is initialized from then on.
    pub fn set_bind_group_and_layout(&mut self, layout: E::BindGroupLayout, bind_group: E::BindGroup)
        ensures
            final(self)@ == (MaterialView {
                bind_group_layout: Some(layout),
                bind_group: Some(bind_group),
                is_initialized: true,
                ..old(self)@
            }),
    {
        self.bind_group_layout = Some(layout);
        self.bind_group = Some(bind_group);
        self.is_initialized = true;
    }

    /// Replaces the bind group after an attachment was reallocated.
    pub fn set_bind_group(&mut self, bind_group: E::BindGroup)
        ensures
            final(self)@ == (MaterialView { bind_group: Some(bind_group), ..old(self)@ }),
    {
        self.bind_group = Some(bind_group);
    }

    pub fn attachments(&self) -> (r: &[ShaderAttachment<E>])
        ensures
            r@ == self@.attachments,
    {
        self.attachments.as_slice()
    }

    pub fn attachments_mut(&mut self) -> (r: &mut [ShaderAttachment<E>])
        ensures
            r@ == old(self)@.attachments,
            final(self)@ == (MaterialView { attachments: final(r)@, ..old(self)@ }),
    {
        self.attachments.as_mut_slice()
    }

    /// The ranges of the scene's components that this material draws, as of the last update.
    pub fn component_ranges(&self) -> (r: &[Range<usize>])
        ensures
            r@ == self@.component_ranges,
    {
        self.component_ranges.as_slice()
    }

    pub fn get_immediate_data(&self) -> (r: &[u8])
        ensures
            r@ == self@.immediate_data,
    {
        self.immediate_data.as_slice()
    }

    pub fn set_immediate_data(&mut self, immediate_data: &[u8])
        ensures
            final(self)@ == (MaterialView { immediate_data: immediate_data@, ..old(self)@ }),
    {
        self.immediate_data = vstd::slice::slice_to_vec(immediate_data);
    }

    /// Checks that attachment `attachment_index` exists, that it is a texture (`texture`) or a
    /// buffer (`!texture`), and that the material is initialized: the checks that an update of
    /// an attachment's data starts with, before anything is written. A kind mismatch reports
    /// the kind of the targeted attachment.
    pub fn check_attachment_update(&self, attachment_index: usize, texture: bool) -> (r: Result<(), MaterialError>)
        ensures
            attachment_index >= self@.attachments.len() ==> r == Err::<(), MaterialError>(MaterialError::AttachmentNotFound(attachment_index)),
            attachment_index < self@.attachments.len() ==> r == (if (self@.attachments[attachment_index as int] is Texture) != texture {
                Err::<(), MaterialError>(MaterialError::InvalidAttachmentUpdate {
                    target: attachment_index,
                    target_is_texture: self@.attachments[attachment_index as int] is Texture,
                })
            } else if self@.bind_group_layout is None {
                Err(MaterialError::PipelineNotInitialized(self@.id))
            } else {
                Ok(())
            }),
    {
        if attachment_index < self.attachments.len() {
            let is_texture = match &self.attachments[attachment_index] {
                ShaderAttachment::Texture(_) => true,
                ShaderAttachment::Buffer(_) => false,
            };
            if is_texture != texture {
                Err(MaterialError::InvalidAttachmentUpdate { target: attachment_index, target_is_texture: is_texture })
            } else if self.bind_group_layout.is_none() {
                Err(MaterialError::PipelineNotInitialized(self.id))
            } else {
                Ok(())
            }
        } else {
            Err(MaterialError::AttachmentNotFound(attachment_index))
        }
    }

    /// After an attachment took new data, whether the bind group must be rebuilt: when the
    /// attachment was reallocated (`reallocated`). A material without a bind group layout is
    /// not initialized and refuses the update.
    pub fn rebind_after_update(&self, reallocated: bool) -> (r: Result<bool, MaterialError>)
        ensures
            self@.bind_group_layout is None ==> r == Err::<bool, MaterialError>(MaterialError::PipelineNotInitialized(self@.id)),
            self@.bind_group_layout is Some ==> r == Ok::<bool, MaterialError>(reallocated),
    {
        if self.bind_group_layout.is_none() {
            Err(MaterialError::PipelineNotInitialized(self.id))
        } else {
            Ok(reallocated)
        }
    }

    /// Recomputes which ranges of the scene's components this material draws: those of the
    /// attached entities among `entity_component_groupings`.
    pub fn update(&mut self, entity_component_groupings: &HashMap<Id, Range<usize>>)
        ensures
            final(self)@ == (MaterialView { component_ranges: final(self)@.component_ranges, ..old(self)@ }),
            ranges_of_attached(old(self)@.entities_attached, entity_component_groupings@, final(self)@.component_ranges),
    {
        let ghost groupings = entity_component_groupings@;
        let ghost attached = self.entities_attached@;
        let mut ranges: Vec<Range<usize>> = Vec::new();
        let ghost mut ids: Seq<Id> = Seq::empty();
        for item in it: entity_component_groupings.iter()
            invariant
                groupings == entity_component_groupings@,
                attached == self.entities_attached@,
                it.seq().no_duplicates(),
                forall|k: Id| #[trigger] groupings.contains_key(k) ==> it.seq().contains((&k, &groupings[k])),
                forall|i: int| 0 <= i < it.seq().len() ==> groupings.contains_key(*(#[trigger] it.seq()[i]).0)
                    && groupings[*it.seq()[i].0] == *it.seq()[i].1,
                ids.no_duplicates(),
                forall|e: Id| #[trigger] ids.contains(e) <==> (attached.contains(e) && exists|i: int| 0 <= i < it.index() && *(#[trigger] it.seq()[i]).0 == e),
                ranges@ == ids.map_values(|e: Id| groupings[e]),
        {
            let (entity_id, range) = item;
            let ghost cur = it.index();
            proof {
                assert(item == it.seq()[cur]);
                assert forall|i: int| 0 <= i < cur implies *(#[trigger] it.seq()[i]).0 != *entity_id by {
                    if *it.seq()[i].0 == *entity_id {
                        assert(it.seq()[i] == it.seq()[cur]);
                    }
                }
            }
            let ghost old_ids = ids;
            if self.entities_attached.contains(entity_id) {
                ranges.push(range.start..range.end);
                proof {
                    assert(!old_ids.contains(*entity_id));
                    ids = ids.push(*entity_id);
                    assert forall|i: int, j: int| 0 <= i < ids.len() && 0 <= j < ids.len() && i != j implies ids[i] != ids[j] by {
                        if j == ids.len() - 1 {
                            assert(old_ids.contains(ids[i]));
                        } else if i == ids.len() - 1 {
                            assert(old_ids.contains(ids[j]));
                        }
                    }
                    assert forall|e: Id| #[trigger] ids.contains(e) <==> (old_ids.contains(e) || e == *entity_id) by {
                        if e == *entity_id {
                            assert(ids[ids.len() - 1] == e);
                        }
                        if old_ids.contains(e) {
                            let k = choose|k: int| 0 <= k < old_ids.len() && old_ids[k] == e;
                            assert(ids[k] == e);
                        }
                    }
                    assert(ranges@ =~= ids.map_values(|e: Id| groupings[e]));
                }
            }
            proof {
                assert forall|e: Id| #[trigger] ids.contains(e) <==> (attached.contains(e) && exists|i: int| 0 <= i < cur + 1 && *(#[trigger] it.seq()[i]).0 == e) by {
                    if attached.contains(e) && *it.seq()[cur].0 == e {
                        assert(ids.contains(e));
                    }
                    if exists|i: int| 0 <= i < cur + 1 && *(#[trigger] it.seq()[i]).0 == e {
                        let i = choose|i: int| 0 <= i < cur + 1 && *(#[trigger] it.seq()[i]).0 == e;
                        if i < cur {
                            assert(exists|i: int| 0 <= i < cur && *(#[trigger] it.seq()[i]).0 == e);
                        }
                    }
                }
            }
        }
        proof {
            assert(ids.to_set() =~= groupings.dom().intersect(attached));
        }
        self.component_ranges = ranges;
    }

    pub fn id(&self) -> (r: Id)
        ensures
            r == self@.id,
    {
        self.id
    }

    pub fn set_id(&mut self, id: Id)
        ensures
            final(self)@ == (MaterialView { id, ..old(self)@ }),
    {
        self.id = id;
    }

    pub fn is_initialized(&self) -> (r: bool)
        ensures
            r == self@.is_initialized,
    {
        self.is_initialized
    }

    pub fn set_initialized(&mut self)
        ensures
            final(self)@ == (MaterialView { is_initialized: true, ..old(self)@ }),
    {
        self.is_initialized = true;
    }

    /// A material belongs to no entity: this is always nil.
    pub fn parent_entity_id(&self) -> (r: Id)
        ensures
            r == self@.parent_entity,
    {
        self.parent_entity
    }

    /// A material belongs to no entity: this changes nothing.
    pub fn set_parent_entity(&mut self, _parent_id: Id)
        ensures
            final(self)@ == old(self)@,
    {
    }

    pub fn is_enabled(&self) -> (r: bool)
        ensures
            r == self@.is_enabled,
    {
        self.is_enabled
    }

    pub fn set_enabled_state(&mut self, enabled_state: bool)
        ensures
            final(self)@ == (MaterialView { is_enabled: enabled_state, ..old(self)@ }),
    {
        self.is_enabled = enabled_state;
    }
}


/// The indices that `r` spans, in increasing order.
pub open spec fn range_indices(r: Range<usize>) -> Seq<usize> {
    Seq::new(if r.start <= r.end { (r.end - r.start) as nat } else { 0 }, |i: int| (r.start + i) as usize)
}

/// The indices that the first `n` ranges of `ranges` span, range by range, keeping those for
/// which `keep` holds.
pub open spec fn indices_of_ranges(ranges: Seq<Range<usize>>, n: nat, keep: spec_fn(usize) -> bool) -> Seq<usize>
    decreases n,
{
    if n == 0 {
        Seq::empty()
    } else {
        indices_of_ranges(ranges, (n - 1) as nat, keep) + range_indices(ranges[n - 1]).filter(keep)
    }
}

/// Every range of `ranges` is in order and ends within `len`.
pub open spec fn ranges_within(ranges: Seq<Range<usize>>, len: nat) -> bool {
    forall|i: int| 0 <= i < ranges.len() ==> (#[trigger] ranges[i]).start <= ranges[i].end && ranges[i].end <= len
}

/// Whether every range of `ranges` is in order and ends within `len`.
pub fn ranges_fit(ranges: &[Range<usize>], len: usize) -> (r: bool)
    ensures
        r == ranges_within(ranges@, len as nat),
{
    let mut i: usize = 0;
    while i < ranges.len()
        invariant
            0 <= i <= ranges@.len(),
            forall|j: int| 0 <= j < i ==> (#[trigger] ranges@[j]).start <= ranges@[j].end && ranges@[j].end <= len,
        decreases ranges@.len() - i,
    {
        if !(ranges[i].start <= ranges[i].end && ranges[i].end <= len) {
            return false;
        }
        i = i + 1;
    }
    true
}

/// Whether component `i` of `components` is enabled.
pub open spec fn enabled_in<C: ComponentDetails>(components: Seq<&C>) -> spec_fn(usize) -> bool {
    |i: usize| components[i as int].spec_enabled()
}

/// Any index.
pub open spec fn any_index() -> spec_fn(usize) -> bool {
    |i: usize| true
}

/// The indices that `ranges` span, range by range, that `components` shows enabled (all of
/// them when `enabled_only` is false).
fn indices_in_ranges<C: ComponentDetails>(ranges: &[Range<usize>], components: &[&C], enabled_only: bool) -> (r: Vec<usize>)
    requires
        ranges_within(ranges@, components@.len()),
    ensures
        r@ == indices_of_ranges(ranges@, ranges@.len(), if enabled_only { enabled_in(components@) } else { any_index() }),
{
    let ghost keep = if enabled_only { enabled_in(components@) } else { any_index() };
    let mut out: Vec<usize> = Vec::new();
    let mut k: usize = 0;
    while k < ranges.len()
        invariant
            0 <= k <= ranges@.len(),
            ranges_within(ranges@, components@.len()),
            keep == (if enabled_only { enabled_in(components@) } else { any_index() }),
            out@ == indices_of_ranges(ranges@, k as nat, keep),
        decreases ranges@.len() - k,
    {
        let range = &ranges[k];
        let start = range.start;
        let end = range.end;
        proof {
            assert(ranges@[k as int].start <= ranges@[k as int].end && ranges@[k as int].end <= components@.len());
        }
        let ghost before = out@;
        let ghost span = range_indices(ranges@[k as int]);
        let mut i: usize = start;
        while i < end
            invariant
                start <= i <= end,
                end <= components@.len(),
                span == range_indices(ranges@[k as int]),
                start == ranges@[k as int].start,
                end == ranges@[k as int].end,
                keep == (if enabled_only { enabled_in(components@) } else { any_index() }),
                out@ == before + span.take(i - start).filter(keep),
            decreases end - i,
        {
            proof {
                assert(span.take(i + 1 - start) =~= span.take(i - start).push(i));
                span.take(i - start).lemma_filter_push(i, keep);
            }
            if !enabled_only || components[i].is_enabled() {
                out.push(i);
            }
            i = i + 1;
        }
        proof {
            assert(span.take(end - start) =~= span);
        }
        k = k + 1;
    }
    out
}

impl<E: EngineTypes> Material<E> {
    /// The components this material draws: those in its ranges that are enabled, range by
    /// range, by their index in `components`.
    pub fn components_to_render<C: ComponentDetails>(&self, components: &[&C]) -> (r: Vec<usize>)
        requires
            ranges_within(self@.component_ranges, components@.len()),
        ensures
            r@ == indices_of_ranges(self@.component_ranges, self@.component_ranges.len(), enabled_in(components@)),
    {
        indices_in_ranges(self.component_ranges.as_slice(), components, true)
    }

    /// The components whose command encoder work this material runs: all those in its
    /// ranges, range by range, by their index in `components`.
    pub fn components_to_encode<C: ComponentDetails>(&self, components: &[&C]) -> (r: Vec<usize>)
        requires
            ranges_within(self@.component_ranges, components@.len()),
        ensures
            r@ == indices_of_ranges(self@.component_ranges, self@.component_ranges.len(), any_index()),
    {
        indices_in_ranges(self.component_ranges.as_slice(), components, false)
    }

    /// The bind group slot of the material's bind group: after the camera's when the pipeline
    /// uses the camera.
    pub fn bind_group_slot(uses_camera: bool) -> (r: u32)
        ensures
            r == (if uses_camera { 1u32 } else { 0u32 }),
    {
        if uses_camera {
            1
        } else {
            0
        }
    }
}

} // verus!
