use std::collections::HashMap;

use vstd::prelude::*;

use crate::binding::{
    BindingLayout, BindingLayoutEntry, BufferBindingType, TextureViewDimension, SHADER_STAGE_FRAGMENT,
    SHADER_STAGE_VERTEX,
};
use crate::engine_types::EngineTypes;
use crate::ids::{is_random_id, lemma_unique_sequence_covers, map_keys, new_random_id, Id, NIL_ID};

verus! {

/// Why a render pipeline could not be built.
#[derive(Debug, Clone, PartialEq, Eq)]
pub enum PipelineError {
    /// The shader at `path` could not be read; `err` says why.
    ShaderModuleError { path: String, err: String },
}

/// How vertices are assembled into primitives.
#[derive(Debug, Clone, Copy, PartialEq, Eq)]
pub enum PrimitiveTopology {
    PointList,
    LineList,
    LineStrip,
    TriangleList,
    TriangleStrip,
}

/// The format of the indices of an index buffer.
#[derive(Debug, Clone, Copy, PartialEq, Eq)]
pub enum IndexFormat {
    Uint16,
    Uint32,
}

/// Which winding of a triangle's vertices faces the front.
#[derive(Debug, Clone, Copy, PartialEq, Eq)]
pub enum FrontFace {
    Ccw,
    Cw,
}

/// A face of a triangle.
#[derive(Debug, Clone, Copy, PartialEq, Eq)]
pub enum Face {
    Front,
    Back,
}

/// How polygons are rasterized.
#[derive(Debug, Clone, Copy, PartialEq, Eq)]
pub enum PolygonMode {
    Fill,
    Line,
    Point,
}

/// How a pipeline turns vertices into primitives.
#[derive(Debug, Clone, Copy, PartialEq, Eq)]
pub struct GeometryDetails {
    pub topology: PrimitiveTopology,
    pub strip_index_format: Option<IndexFormat>,
    pub front_face: FrontFace,
    pub cull_mode: Option<Face>,
    pub polygon_mode: PolygonMode,
}

/// Triangle lists, counter-clockwise front faces, no culling, filled polygons.
pub open spec fn default_geometry_details() -> GeometryDetails {
    GeometryDetails {
        topology: PrimitiveTopology::TriangleList,
        strip_index_format: None,
        front_face: FrontFace::Ccw,
        cull_mode: None,
        polygon_mode: PolygonMode::Fill,
    }
}

impl GeometryDetails {
    /// Triangle lists, counter-clockwise front faces, no culling, filled polygons.
    pub fn default_details() -> (g: Self)
        ensures
            g == default_geometry_details(),
    {
        GeometryDetails {
            topology: PrimitiveTopology::TriangleList,
            strip_index_format: None,
            front_face: FrontFace::Ccw,
            cull_mode: None,
            polygon_mode: PolygonMode::Fill,
        }
    }
}

impl Default for GeometryDetails {
    fn default() -> (g: Self)
        ensures
            g == default_geometry_details(),
    {
        GeometryDetails::default_details()
    }
}

/// The format of one vertex attribute.
#[derive(Debug, Clone, Copy, PartialEq, Eq)]
pub enum VertexFormat {
    Uint8,
    Uint8x2,
    Uint8x4,
    Sint8,
    Sint8x2,
    Sint8x4,
    Unorm8,
    Unorm8x2,
    Unorm8x4,
    Snorm8,
    Snorm8x2,
    Snorm8x4,
    Uint16,
    Uint16x2,
    Uint16x4,
    Sint16,
    Sint16x2,
    Sint16x4,
    Unorm16,
    Unorm16x2,
    Unorm16x4,
    Snorm16,
    Snorm16x2,
    Snorm16x4,
    Float16,
    Float16x2,
    Float16x4,
    Float32,
    Float32x2,
    Float32x3,
    Float32x4,
    Uint32,
    Uint32x2,
    Uint32x3,
    Uint32x4,
    Sint32,
    Sint32x2,
    Sint32x3,
    Sint32x4,
    Float64,
    Float64x2,
    Float64x3,
    Float64x4,
    Unorm10_10_10_2,
    Unorm8x4Bgra,
}

impl VertexFormat {
    /// The size in bytes of one value of this format.
    pub fn size(&self) -> (r: u64)
        ensures
            r == match *self {
                VertexFormat::Uint8 | VertexFormat::Sint8 | VertexFormat::Unorm8 | VertexFormat::Snorm8 => 1u64,
                VertexFormat::Uint8x2 | VertexFormat::Sint8x2 | VertexFormat::Unorm8x2 | VertexFormat::Snorm8x2
                | VertexFormat::Uint16 | VertexFormat::Sint16 | VertexFormat::Unorm16 | VertexFormat::Snorm16
                | VertexFormat::Float16 => 2u64,
                VertexFormat::Uint8x4 | VertexFormat::Sint8x4 | VertexFormat::Unorm8x4 | VertexFormat::Snorm8x4
                | VertexFormat::Uint16x2 | VertexFormat::Sint16x2 | VertexFormat::Unorm16x2 | VertexFormat::Snorm16x2
                | VertexFormat::Float16x2 | VertexFormat::Float32 | VertexFormat::Uint32 | VertexFormat::Sint32
                | VertexFormat::Unorm10_10_10_2 | VertexFormat::Unorm8x4Bgra => 4u64,
                VertexFormat::Uint16x4 | VertexFormat::Sint16x4 | VertexFormat::Unorm16x4 | VertexFormat::Snorm16x4
                | VertexFormat::Float16x4 | VertexFormat::Float32x2 | VertexFormat::Uint32x2 | VertexFormat::Sint32x2
                | VertexFormat::Float64 => 8u64,
                VertexFormat::Float32x3 | VertexFormat::Uint32x3 | VertexFormat::Sint32x3 => 12u64,
                VertexFormat::Float32x4 | VertexFormat::Uint32x4 | VertexFormat::Sint32x4 | VertexFormat::Float64x2 => 16u64,
                VertexFormat::Float64x3 => 24u64,
                VertexFormat::Float64x4 => 32u64,
            },
    {
        match self {
            VertexFormat::Uint8 | VertexFormat::Sint8 | VertexFormat::Unorm8 | VertexFormat::Snorm8 => 1,
            VertexFormat::Uint8x2 | VertexFormat::Sint8x2 | VertexFormat::Unorm8x2 | VertexFormat::Snorm8x2
            | VertexFormat::Uint16 | VertexFormat::Sint16 | VertexFormat::Unorm16 | VertexFormat::Snorm16
            | VertexFormat::Float16 => 2,
            VertexFormat::Uint8x4 | VertexFormat::Sint8x4 | VertexFormat::Unorm8x4 | VertexFormat::Snorm8x4
            | VertexFormat::Uint16x2 | VertexFormat::Sint16x2 | VertexFormat::Unorm16x2 | VertexFormat::Snorm16x2
            | VertexFormat::Float16x2 | VertexFormat::Float32 | VertexFormat::Uint32 | VertexFormat::Sint32
            | VertexFormat::Unorm10_10_10_2 | VertexFormat::Unorm8x4Bgra => 4,
            VertexFormat::Uint16x4 | VertexFormat::Sint16x4 | VertexFormat::Unorm16x4 | VertexFormat::Snorm16x4
            | VertexFormat::Float16x4 | VertexFormat::Float32x2 | VertexFormat::Uint32x2 | VertexFormat::Sint32x2
            | VertexFormat::Float64 => 8,
            VertexFormat::Float32x3 | VertexFormat::Uint32x3 | VertexFormat::Sint32x3 => 12,
            VertexFormat::Float32x4 | VertexFormat::Uint32x4 | VertexFormat::Sint32x4 | VertexFormat::Float64x2 => 16,
            VertexFormat::Float64x3 => 24,
            VertexFormat::Float64x4 => 32,
        }
    }
}

/// Whether a vertex buffer advances per vertex or per instance.
#[derive(Debug, Clone, Copy, PartialEq, Eq)]
pub enum VertexStepMode {
    Vertex,
    Instance,
}

/// One attribute of a vertex buffer layout.
#[derive(Debug, Clone, Copy, PartialEq, Eq)]
pub struct VertexAttribute {
    pub format: VertexFormat,
    pub offset: u64,
    pub shader_location: u32,
}

/// How a vertex buffer is laid out.
#[derive(Debug, Clone, PartialEq, Eq)]
pub struct VertexBufferLayout {
    pub array_stride: u64,
    pub step_mode: VertexStepMode,
    pub attributes: Vec<VertexAttribute>,
}

/// Everything that defines a render pipeline.
#[derive(Debug, Clone, PartialEq, Eq)]
pub struct PipelineParameters {
    pub vertex_shader: String,
    pub spirv_vertex_shader: bool,
    pub fragment_shader: String,
    pub spirv_fragment_shader: bool,
    pub vertex_layouts: Vec<VertexBufferLayout>,
    pub uses_camera: bool,
    pub is_screenspace: bool,
    pub geometry_details: GeometryDetails,
    pub immediate_size: u32,
    pub render_priority: i32,
}

/// `a` and `b` describe the same vertex buffer layout.
pub open spec fn same_layout(a: VertexBufferLayout, b: VertexBufferLayout) -> bool {
    a.array_stride == b.array_stride && a.step_mode == b.step_mode && a.attributes@ == b.attributes@
}

/// `a` and `b` describe the same pipeline.
pub open spec fn same_parameters(a: PipelineParameters, b: PipelineParameters) -> bool {
    &&& a.vertex_shader@ == b.vertex_shader@
    &&& a.spirv_vertex_shader == b.spirv_vertex_shader
    &&& a.fragment_shader@ == b.fragment_shader@
    &&& a.spirv_fragment_shader == b.spirv_fragment_shader
    &&& a.vertex_layouts@.len() == b.vertex_layouts@.len()
    &&& forall|i: int| 0 <= i < a.vertex_layouts@.len() ==> same_layout(#[trigger] a.vertex_layouts@[i], b.vertex_layouts@[i])
    &&& a.uses_camera == b.uses_camera
    &&& a.is_screenspace == b.is_screenspace
    &&& a.geometry_details == b.geometry_details
    &&& a.immediate_size == b.immediate_size
    &&& a.render_priority == b.render_priority
}

impl VertexBufferLayout {
    /// A copy of the layout.
    pub fn duplicate(&self) -> (r: Self)
        ensures
            same_layout(r, *self),
    {
        let mut attributes: Vec<VertexAttribute> = Vec::new();
        let mut i: usize = 0;
        while i < self.attributes.len()
            invariant
                0 <= i <= self.attributes@.len(),
                attributes@ =~= self.attributes@.take(i as int),
            decreases self.attributes@.len() - i,
        {
            attributes.push(self.attributes[i]);
            i = i + 1;
        }
        proof {
            assert(self.attributes@.take(i as int) =~= self.attributes@);
        }
        VertexBufferLayout { array_stride: self.array_stride, step_mode: self.step_mode, attributes }
    }
}

impl VertexBufferLayout {
    /// The per-instance layout of a 4x4 transformation matrix: four vectors of four 32-bit
    /// floats, one after the other, at the shader locations from `first_location` on.
    pub fn transform_instance_layout(first_location: u32) -> (r: Self)
        requires
            first_location + 3 <= u32::MAX,
        ensures
            r.array_stride == 64,
            r.step_mode == VertexStepMode::Instance,
            r.attributes@ == seq![
                VertexAttribute { format: VertexFormat::Float32x4, offset: 0, shader_location: first_location },
                VertexAttribute { format: VertexFormat::Float32x4, offset: 16, shader_location: (first_location + 1) as u32 },
                VertexAttribute { format: VertexFormat::Float32x4, offset: 32, shader_location: (first_location + 2) as u32 },
                VertexAttribute { format: VertexFormat::Float32x4, offset: 48, shader_location: (first_location + 3) as u32 },
            ],
    {
        let vector_size = VertexFormat::Float32x4.size();
        let mut attributes: Vec<VertexAttribute> = Vec::new();
        attributes.push(VertexAttribute { format: VertexFormat::Float32x4, offset: 0, shader_location: first_location });
        attributes.push(VertexAttribute { format: VertexFormat::Float32x4, offset: vector_size, shader_location: first_location + 1 });
        attributes.push(VertexAttribute { format: VertexFormat::Float32x4, offset: vector_size * 2, shader_location: first_location + 2 });
        attributes.push(VertexAttribute { format: VertexFormat::Float32x4, offset: vector_size * 3, shader_location: first_location + 3 });
        VertexBufferLayout { array_stride: vector_size * 4, step_mode: VertexStepMode::Instance, attributes }
    }
}

/// The vertex shader that every screen-space pipeline runs.
pub const SCREENSPACE_VERTEX_SHADER: &'static str = "../default_shaders/screenspace_vertex.wgsl";

impl PipelineParameters {
    /// A copy of the parameters.
    pub fn duplicate(&self) -> (r: Self)
        ensures
            same_parameters(r, *self),
    {
        let mut vertex_layouts: Vec<VertexBufferLayout> = Vec::new();
        let mut i: usize = 0;
        while i < self.vertex_layouts.len()
            invariant
                0 <= i <= self.vertex_layouts@.len(),
                vertex_layouts@.len() == i,
                forall|j: int| 0 <= j < i ==> same_layout(#[trigger] vertex_layouts@[j], self.vertex_layouts@[j]),
            decreases self.vertex_layouts@.len() - i,
        {
            vertex_layouts.push(self.vertex_layouts[i].duplicate());
            i = i + 1;
        }
        PipelineParameters {
            vertex_shader: self.vertex_shader.clone(),
            spirv_vertex_shader: self.spirv_vertex_shader,
            fragment_shader: self.fragment_shader.clone(),
            spirv_fragment_shader: self.spirv_fragment_shader,
            vertex_layouts,
            uses_camera: self.uses_camera,
            is_screenspace: self.is_screenspace,
            geometry_details: self.geometry_details,
            immediate_size: self.immediate_size,
            render_priority: self.render_priority,
        }
    }

    pub fn vertex_layouts(&self) -> (r: &[VertexBufferLayout])
        ensures
            r@ == self.vertex_layouts@,
    {
        self.vertex_layouts.as_slice()
    }

    pub fn geometry_details(&self) -> (r: &GeometryDetails)
        ensures
            *r == self.geometry_details,
    {
        &self.geometry_details
    }

    /// The parameters of a screen-space pipeline: the shared screen-space vertex shader over
    /// one buffer of positions and texture coordinates, the given fragment shader, the camera,
    /// default geometry, and the last place in rendering order.
    pub fn screenspace_shader(shader_path: String, spirv_shader: bool, immediate_size: u32) -> (p: Self)
        ensures
            p.vertex_shader@ == SCREENSPACE_VERTEX_SHADER@,
            !p.spirv_vertex_shader,
            p.fragment_shader@ == shader_path@,
            p.spirv_fragment_shader == spirv_shader,
            p.vertex_layouts@.len() == 1,
            p.vertex_layouts@[0].array_stride == 20,
            p.vertex_layouts@[0].step_mode == VertexStepMode::Vertex,
            p.vertex_layouts@[0].attributes@ == seq![
                VertexAttribute { format: VertexFormat::Float32x3, offset: 0, shader_location: 0 },
                VertexAttribute { format: VertexFormat::Float32x2, offset: 12, shader_location: 1 },
            ],
            p.uses_camera,
            p.is_screenspace,
            p.geometry_details == default_geometry_details(),
            p.immediate_size == immediate_size,
            p.render_priority == i32::MAX,
    {
        let mut attributes: Vec<VertexAttribute> = Vec::new();
        attributes.push(VertexAttribute { format: VertexFormat::Float32x3, offset: 0, shader_location: 0 });
        attributes.push(VertexAttribute { format: VertexFormat::Float32x2, offset: 12, shader_location: 1 });
        let mut vertex_layouts: Vec<VertexBufferLayout> = Vec::new();
        vertex_layouts.push(VertexBufferLayout { array_stride: 4 * 5, step_mode: VertexStepMode::Vertex, attributes });
        PipelineParameters {
            vertex_shader: SCREENSPACE_VERTEX_SHADER.to_string(),
            spirv_vertex_shader: false,
            fragment_shader: shader_path,
            spirv_fragment_shader: spirv_shader,
            vertex_layouts,
            uses_camera: true,
            is_screenspace: true,
            geometry_details: GeometryDetails::default_details(),
            immediate_size,
            render_priority: i32::MAX,
        }
    }
}

} // verus!

verus! {

/// A bind group layout that a pipeline takes before its material's own: the camera's, or the
/// screen-space input's.
#[derive(Debug, Clone, Copy, PartialEq, Eq)]
pub enum SpecialBindGroupLayout {
    Camera,
    ScreenSpace,
}

impl SpecialBindGroupLayout {
    /// The entries of the layout: for the camera, its uniform buffer, seen by the vertex and
    /// fragment stages; for the screen-space input, the filtered 2D texture of the rendered
    /// scene and its filtering sampler, seen by the fragment stage.
    pub fn entries<F>(&self) -> (r: Vec<BindingLayoutEntry<F>>)
        ensures
            r@ == match *self {
                SpecialBindGroupLayout::Camera => seq![BindingLayoutEntry::<F> {
                    binding: 0u32,
                    visibility: SHADER_STAGE_VERTEX | SHADER_STAGE_FRAGMENT,
                    layout: BindingLayout::Buffer { ty: BufferBindingType::Uniform, has_dynamic_offset: false },
                }],
                SpecialBindGroupLayout::ScreenSpace => seq![
                    BindingLayoutEntry::<F> {
                        binding: 0u32,
                        visibility: SHADER_STAGE_FRAGMENT,
                        layout: BindingLayout::Texture { filterable: true, view_dimension: TextureViewDimension::D2, multisampled: false },
                    },
                    BindingLayoutEntry { binding: 1u32, visibility: SHADER_STAGE_FRAGMENT, layout: BindingLayout::Sampler { filtering: true } },
                ],
            },
    {
        let mut entries: Vec<BindingLayoutEntry<F>> = Vec::new();
        match self {
            SpecialBindGroupLayout::Camera => {
                entries.push(BindingLayoutEntry {
                    binding: 0,
                    visibility: SHADER_STAGE_VERTEX | SHADER_STAGE_FRAGMENT,
                    layout: BindingLayout::Buffer { ty: BufferBindingType::Uniform, has_dynamic_offset: false },
                });
            },
            SpecialBindGroupLayout::ScreenSpace => {
                entries.push(BindingLayoutEntry {
                    binding: 0,
                    visibility: SHADER_STAGE_FRAGMENT,
                    layout: BindingLayout::Texture { filterable: true, view_dimension: TextureViewDimension::D2, multisampled: false },
                });
                entries.push(BindingLayoutEntry { binding: 1, visibility: SHADER_STAGE_FRAGMENT, layout: BindingLayout::Sampler { filtering: true } });
            },
        }
        proof {
            assert(entries@ =~= match *self {
                SpecialBindGroupLayout::Camera => seq![BindingLayoutEntry::<F> {
                    binding: 0u32,
                    visibility: SHADER_STAGE_VERTEX | SHADER_STAGE_FRAGMENT,
                    layout: BindingLayout::Buffer { ty: BufferBindingType::Uniform, has_dynamic_offset: false },
                }],
                SpecialBindGroupLayout::ScreenSpace => seq![
                    BindingLayoutEntry::<F> {
                        binding: 0u32,
                        visibility: SHADER_STAGE_FRAGMENT,
                        layout: BindingLayout::Texture { filterable: true, view_dimension: TextureViewDimension::D2, multisampled: false },
                    },
                    BindingLayoutEntry { binding: 1u32, visibility: SHADER_STAGE_FRAGMENT, layout: BindingLayout::Sampler { filtering: true } },
                ],
            });
        }
        entries
    }
}

/// The abstract state of a pipeline manager.
pub ghost struct PipelineManagerView<E: EngineTypes> {
    pub pipelines: Map<Id, (PipelineParameters, E::RenderPipeline)>,
    pub pipelines_queue: Seq<(Id, PipelineParameters, Option<E::BindGroupLayout>)>,
}

/// The render pipelines of a scene, and those specified but not built yet.
#[derive(Debug)]
pub struct PipelineManager<E: EngineTypes> {
    /// Ready pipelines that have been constructed.
    pipelines: HashMap<Id, (PipelineParameters, E::RenderPipeline)>,
    /// Pipelines that have been specified but are yet to be constructed.
    pipelines_queue: Vec<(Id, PipelineParameters, Option<E::BindGroupLayout>)>,
}

impl<E: EngineTypes> View for PipelineManager<E> {
    type V = PipelineManagerView<E>;

    closed spec fn view(&self) -> PipelineManagerView<E> {
        PipelineManagerView { pipelines: self.pipelines@, pipelines_queue: self.pipelines_queue@ }
    }
}

/// `r` lists the pipelines of `pipelines`, each once, by non-decreasing render priority.
pub open spec fn is_sorted_listing<P>(
    r: Seq<(Id, &PipelineParameters, &P)>,
    pipelines: Map<Id, (PipelineParameters, P)>,
) -> bool {
    &&& r.len() == pipelines.dom().len()
    &&& forall|i: int|
        0 <= i < r.len() ==> pipelines.contains_key(#[trigger] r[i].0) && *r[i].1 == pipelines[r[i].0].0
            && *r[i].2 == pipelines[r[i].0].1
    &&& forall|k: Id| pipelines.contains_key(k) ==> exists|i: int| 0 <= i < r.len() && #[trigger] r[i].0 == k
    &&& forall|i: int, j: int| 0 <= i < j < r.len() ==> r[i].0 != r[j].0
    &&& forall|i: int, j: int|
        0 <= i <= j < r.len() ==> r[i].1.render_priority <= r[j].1.render_priority
}

impl<E: EngineTypes> PipelineManager<E> {
    pub fn new() -> (m: Self)
        ensures
            m@.pipelines == Map::<Id, (PipelineParameters, E::RenderPipeline)>::empty(),
            m@.pipelines_queue == Seq::<(Id, PipelineParameters, Option<E::BindGroupLayout>)>::empty(),
    {
        PipelineManager { pipelines: HashMap::new(), pipelines_queue: Vec::new() }
    }

    pub fn get_pipeline(&self, id: Id) -> (r: Option<&(PipelineParameters, E::RenderPipeline)>)
        ensures
            r is Some <==> self@.pipelines.contains_key(id),
            r matches Some(p) ==> *p == self@.pipelines[id],
    {
        self.pipelines.get(&id)
    }

    /// The layouts a pipeline of `parameters` takes before its material's: the camera's when
    /// it uses the camera, then the screen-space input's when it is screen-space.
    pub fn special_bind_group_layouts(parameters: &PipelineParameters) -> (r: Vec<SpecialBindGroupLayout>)
        ensures
            r@ == (if parameters.uses_camera { seq![SpecialBindGroupLayout::Camera] } else { Seq::empty() })
                + (if parameters.is_screenspace { seq![SpecialBindGroupLayout::ScreenSpace] } else { Seq::empty() }),
    {
        let mut layouts: Vec<SpecialBindGroupLayout> = Vec::new();
        if parameters.uses_camera {
            layouts.push(SpecialBindGroupLayout::Camera);
        }
        if parameters.is_screenspace {
            layouts.push(SpecialBindGroupLayout::ScreenSpace);
        }
        proof {
            assert(layouts@ =~= (if parameters.uses_camera { seq![SpecialBindGroupLayout::Camera] } else { Seq::empty() })
                + (if parameters.is_screenspace { seq![SpecialBindGroupLayout::ScreenSpace] } else { Seq::empty() }));
        }
        layouts
    }

    /// Whether a pipeline of `parameters` tests and writes depth: all but screen-space ones.
    pub fn uses_depth_stencil(parameters: &PipelineParameters) -> (r: bool)
        ensures
            r == !parameters.is_screenspace,
    {
        !parameters.is_screenspace
    }

    pub fn add_pipeline_to_creation_queue(
        &mut self,
        pipeline_id: Id,
        pipeline_parameters: PipelineParameters,
        attachment_bind_group_layout: Option<E::BindGroupLayout>,
    )
        ensures
            final(self)@.pipelines == old(self)@.pipelines,
            final(self)@.pipelines_queue == old(self)@.pipelines_queue.push((pipeline_id, pipeline_parameters, attachment_bind_group_layout)),
    {
        self.pipelines_queue.push((pipeline_id, pipeline_parameters, attachment_bind_group_layout));
    }

    /// The pipelines waiting to be built, in the order they were queued.
    pub fn pipelines_queue(&self) -> (r: &[(Id, PipelineParameters, Option<E::BindGroupLayout>)])
        ensures
            r@ == self@.pipelines_queue,
    {
        self.pipelines_queue.as_slice()
    }

    /// Forgets the queued pipelines, once they have all been built.
    pub fn clear_pipelines_queue(&mut self)
        ensures
            final(self)@.pipelines == old(self)@.pipelines,
            final(self)@.pipelines_queue == Seq::<(Id, PipelineParameters, Option<E::BindGroupLayout>)>::empty(),
    {
        self.pipelines_queue = Vec::new();
    }

    /// The id a new render pipeline gets: the one asked for, or a fresh random one.
    pub fn resolve_pipeline_id(id: Option<Id>) -> (r: Id)
        ensures
            id matches Some(i) ==> r == i,
            id is None ==> is_random_id(r),
    {
        match id {
            Some(i) => i,
            None => new_random_id(),
        }
    }

    /// Records a built render pipeline under `id`, replacing any pipeline of that id.
    pub fn insert_render_pipeline(&mut self, id: Id, descriptor: PipelineParameters, pipeline: E::RenderPipeline)
        ensures
            final(self)@.pipelines == old(self)@.pipelines.insert(id, (descriptor, pipeline)),
            final(self)@.pipelines_queue == old(self)@.pipelines_queue,
    {
        self.pipelines.insert(id, (descriptor, pipeline));
    }

    /// The ids of the built pipelines, each once, in no particular order.
    pub fn pipeline_ids(&self) -> (r: Vec<Id>)
        ensures
            r@.no_duplicates(),
            r@.to_set() == self@.pipelines.dom(),
    {
        map_keys(&self.pipelines)
    }

    /// The built pipelines in rendering order: by non-decreasing render priority.
    pub fn sorted_pipelines(&self) -> (r: Vec<(Id, &PipelineParameters, &E::RenderPipeline)>)
        ensures
            is_sorted_listing(r@, self@.pipelines),
    {
        let ghost pipelines = self.pipelines@;
        let mut listing: Vec<(Id, &PipelineParameters, &E::RenderPipeline)> = Vec::new();
        for item in it: self.pipelines.iter()
            invariant
                pipelines == self.pipelines@,
                it.seq().no_duplicates(),
                it.seq().len() == pipelines.dom().len(),
                forall|i: int| 0 <= i < it.seq().len() ==> pipelines.contains_key(*(#[trigger] it.seq()[i]).0)
                    && pipelines[*it.seq()[i].0] == *it.seq()[i].1,
                listing@.len() == it.index(),
                forall|i: int| 0 <= i < it.index() ==> (#[trigger] listing@[i]).0 == *it.seq()[i].0,
                forall|i: int|
                    0 <= i < listing@.len() ==> pipelines.contains_key(#[trigger] listing@[i].0) && *listing@[i].1 == pipelines[listing@[i].0].0
                        && *listing@[i].2 == pipelines[listing@[i].0].1,
                forall|i: int, j: int| 0 <= i < j < listing@.len() ==> listing@[i].0 != listing@[j].0,
        {
            let ghost cur = it.index();
            let (id, (parameters, pipeline)) = item;
            proof {
                assert(item == it.seq()[cur]);
                assert forall|i: int| 0 <= i < listing@.len() implies listing@[i].0 != *id by {
                    if listing@[i].0 == *id {
                        assert(it.seq()[i] == it.seq()[cur]);
                    }
                }
            }
            listing.push((*id, parameters, pipeline));
        }
        proof {
            let ids = listing@.map_values(|e: (Id, &PipelineParameters, &E::RenderPipeline)| e.0);
            assert forall|i: int| 0 <= i < ids.len() implies pipelines.dom().contains(#[trigger] ids[i]) by {
                assert(pipelines.contains_key(listing@[i].0));
            }
            lemma_unique_sequence_covers(ids, pipelines.dom());
            assert forall|k: Id| pipelines.contains_key(k) implies exists|i: int| 0 <= i < listing@.len() && #[trigger] listing@[i].0 == k by {
                assert(ids.to_set().contains(k));
                let i = choose|i: int| 0 <= i < ids.len() && ids[i] == k;
                assert(listing@[i].0 == k);
            }
        }
        let sorted = sort_by_render_priority(listing);
        proof {
            lemma_permutation_keeps_listing(listing@, sorted@, pipelines);
        }
        sorted
    }
}

/// Whether `e` is the entry of pipeline `e.0` in `pipelines`.
pub open spec fn is_listing_entry<P>(e: (Id, &PipelineParameters, &P), pipelines: Map<Id, (PipelineParameters, P)>) -> bool {
    pipelines.contains_key(e.0) && *e.1 == pipelines[e.0].0 && *e.2 == pipelines[e.0].1
}

proof fn lemma_permutation_keeps_listing<P>(
    s: Seq<(Id, &PipelineParameters, &P)>,
    r: Seq<(Id, &PipelineParameters, &P)>,
    pipelines: Map<Id, (PipelineParameters, P)>,
)
    requires
        s.to_multiset() == r.to_multiset(),
        s.len() == pipelines.dom().len(),
        forall|i: int| 0 <= i < s.len() ==> is_listing_entry(#[trigger] s[i], pipelines),
        forall|k: Id| pipelines.contains_key(k) ==> exists|i: int| 0 <= i < s.len() && #[trigger] s[i].0 == k,
        forall|i: int, j: int| 0 <= i < j < s.len() ==> s[i].0 != s[j].0,
        forall|i: int, j: int| 0 <= i <= j < r.len() ==> r[i].1.render_priority <= r[j].1.render_priority,
    ensures
        is_sorted_listing(r, pipelines),
{
    broadcast use vstd::seq_lib::group_to_multiset_ensures;
    assert(s.no_duplicates()) by {
        assert forall|i: int, j: int| 0 <= i < s.len() && 0 <= j < s.len() && i != j implies s[i] != s[j] by {
            if i < j {
                assert(s[i].0 != s[j].0);
            } else {
                assert(s[j].0 != s[i].0);
            }
        }
    }
    s.lemma_multiset_has_no_duplicates();
    r.lemma_multiset_has_no_duplicates_conv();
    assert(r.len() == s.len()) by {
        r.to_multiset_ensures();
        s.to_multiset_ensures();
    }
    assert forall|i: int| 0 <= i < r.len() implies is_listing_entry(#[trigger] r[i], pipelines) by {
        assert(r.contains(r[i]));
        assert(r.to_multiset().count(r[i]) > 0);
        assert(s.contains(r[i]));
    }
    assert forall|k: Id| pipelines.contains_key(k) implies exists|i: int| 0 <= i < r.len() && #[trigger] r[i].0 == k by {
        let j = choose|j: int| 0 <= j < s.len() && #[trigger] s[j].0 == k;
        assert(s.contains(s[j]));
        assert(s.to_multiset().count(s[j]) > 0);
        assert(r.contains(s[j]));
    }
    assert forall|i: int, j: int| 0 <= i < j < r.len() implies r[i].0 != r[j].0 by {
        if r[i].0 == r[j].0 {
            assert(is_listing_entry(r[i], pipelines));
            assert(is_listing_entry(r[j], pipelines));
            assert(r[i] == r[j]);
        }
    }
}

/// Sorts pipeline entries by render priority.
fn sort_by_render_priority<'a, P>(v: Vec<(Id, &'a PipelineParameters, &'a P)>) -> (r: Vec<(Id, &'a PipelineParameters, &'a P)>)
    ensures
        r@.to_multiset() == v@.to_multiset(),
        forall|i: int, j: int| 0 <= i <= j < r@.len() ==> r@[i].1.render_priority <= r@[j].1.render_priority,
{
    broadcast use vstd::seq_lib::group_to_multiset_ensures;
    let mut sorted: Vec<(Id, &'a PipelineParameters, &'a P)> = Vec::new();
    let mut i: usize = 0;
    while i < v.len()
        invariant
            0 <= i <= v@.len(),
            sorted@.to_multiset() == v@.take(i as int).to_multiset(),
            forall|a: int, b: int| 0 <= a <= b < sorted@.len() ==> sorted@[a].1.render_priority <= sorted@[b].1.render_priority,
        decreases v@.len() - i,
    {
        let e = v[i];
        let key = e.1.render_priority;
        let mut p: usize = 0;
        while p < sorted.len() && sorted[p].1.render_priority <= key
            invariant
                0 <= p <= sorted@.len(),
                forall|q: int| 0 <= q < p ==> (#[trigger] sorted@[q]).1.render_priority <= key,
            decreases sorted@.len() - p,
        {
            p = p + 1;
        }
        let ghost before = sorted@;
        proof {
            assert forall|q: int| p <= q < before.len() implies (#[trigger] before[q]).1.render_priority > key by {
                assert(before[p as int].1.render_priority > key);
            }
        }
        sorted.insert(p, e);
        proof {
            sorted@.to_multiset_ensures();
            before.to_multiset_ensures();
            v@.take(i as int).to_multiset_ensures();
            assert(sorted@.remove(p as int) =~= before);
            assert(sorted@[p as int] == e);
            assert(sorted@.contains(e));
            assert(sorted@.to_multiset().count(e) > 0);
            assert(before.to_multiset() =~= sorted@.to_multiset().remove(e));
            assert(v@.take(i + 1) =~= v@.take(i as int).push(e));
            assert(sorted@.to_multiset() =~= before.to_multiset().insert(e));
        }
        i = i + 1;
    }
    proof {
        assert(v@.take(i as int) =~= v@);
    }
    sorted
}

} // verus!
