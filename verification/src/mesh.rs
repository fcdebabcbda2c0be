use std::ops::Range;

use vstd::prelude::*;

use crate::component::{ComponentDetails, ComponentId, EntityId};
use crate::engine_types::EngineTypes;
use crate::ids::{is_hash_digest_id, time_based_id, NIL_ID};

verus! {

/// The abstract state of a mesh component.
pub ghost struct MeshView<V, E: EngineTypes> {
    pub vertices: Seq<Seq<V>>,
    pub indices: Seq<Seq<u32>>,
    pub vertex_buffers: Option<Seq<E::Buffer>>,
    pub index_buffers: Option<Seq<E::Buffer>>,
    pub enabled_models: Seq<(usize, Option<Range<u64>>)>,
    pub id: ComponentId,
    pub parent_entity_id: EntityId,
    pub is_initialized: bool,
    pub is_enabled: bool,
}

/// The models of a mesh, their GPU buffers once created, and which models are drawn.
///
/// Each entry of `enabled_models` draws one model, by index, either whole or over a range of
/// its vertices; there is one draw call per entry.
pub struct MeshComponent<V, E: EngineTypes> {
    vertices: Vec<Vec<V>>,
    indices: Vec<Vec<u32>>,
    vertex_buffers: Option<Vec<E::Buffer>>,
    index_buffers: Option<Vec<E::Buffer>>,
    enabled_models: Vec<(usize, Option<Range<u64>>)>,
    id: ComponentId,
    parent_entity_id: EntityId,
    is_initialized: bool,
    is_enabled: bool,
}

impl<V, E: EngineTypes> View for MeshComponent<V, E> {
    type V = MeshView<V, E>;

    closed spec fn view(&self) -> MeshView<V, E> {
        MeshView {
            vertices: self.vertices@.map_values(|m: Vec<V>| m@),
            indices: self.indices@.map_values(|m: Vec<u32>| m@),
            vertex_buffers: match self.vertex_buffers {
                Some(b) => Some(b@),
                None => None,
            },
            index_buffers: match self.index_buffers {
                Some(b) => Some(b@),
                None => None,
            },
            enabled_models: self.enabled_models@,
            id: self.id,
            parent_entity_id: self.parent_entity_id,
            is_initialized: self.is_initialized,
            is_enabled: self.is_enabled,
        }
    }
}

/// The rendering order of meshes: after the components of lower order.
pub const MESH_RENDERING_ORDER: i32 = 500;

/// One draw call of a mesh: the model drawn, the byte range of its vertex buffer bound (the
/// whole buffer when none), and whether indices are drawn, with the count of indices or of
/// vertices drawn.
#[derive(Debug, Clone, PartialEq, Eq)]
pub struct MeshDrawCall {
    pub model: usize,
    pub vertex_bytes: Option<Range<u64>>,
    pub indexed: bool,
    pub count: u32,
}

/// The draw call for entry `entry` of the enabled models of a mesh, with vertices of
/// `vertex_size` bytes, drawn with index buffers or not.
pub open spec fn draw_call_for<V, E: EngineTypes>(m: MeshView<V, E>, entry: (usize, Option<Range<u64>>), vertex_size: u64, indexed: bool) -> MeshDrawCall {
    MeshDrawCall {
        model: entry.0,
        vertex_bytes: match entry.1 {
            Some(r) => Some(Range { start: (r.start * vertex_size) as u64, end: (r.end * vertex_size) as u64 }),
            None => None,
        },
        indexed,
        count: if indexed {
            m.indices[entry.0 as int].len() as u32
        } else {
            match entry.1 {
                Some(r) => (r.end - r.start) as u32,
                None => m.vertices[entry.0 as int].len() as u32,
            }
        },
    }
}

/// Every entry of the enabled models names a model that exists (and has indices, when drawn
/// with index buffers), and its range, if any, is in order and its bytes can be counted.
pub open spec fn drawable<V, E: EngineTypes>(m: MeshView<V, E>, vertex_size: u64) -> bool {
    forall|i: int|
        0 <= i < m.enabled_models.len() ==> {
            let entry = #[trigger] m.enabled_models[i];
            &&& entry.0 < m.vertices.len()
            &&& m.index_buffers is Some ==> entry.0 < m.indices.len()
            &&& entry.1 matches Some(r) ==> r.start <= r.end && r.end * vertex_size <= u64::MAX
        }
}

impl<V, E: EngineTypes> MeshComponent<V, E> {
    /// A mesh of the given models, each drawn whole, with an id made from the clock, attached
    /// to no entity and not yet initialized.
    pub fn from_models(vertices: Vec<Vec<V>>, indices: Vec<Vec<u32>>, is_enabled: bool) -> (r: Self)
        ensures
            r@.vertices == vertices@.map_values(|m: Vec<V>| m@),
            r@.indices == indices@.map_values(|m: Vec<u32>| m@),
            r@.vertex_buffers is None,
            r@.index_buffers is None,
            r@.enabled_models.len() == vertices@.len(),
            forall|i: int| 0 <= i < vertices@.len() ==> #[trigger] r@.enabled_models[i] == (i as usize, None::<Range<u64>>),
            r@.parent_entity_id == NIL_ID,
            !r@.is_initialized,
            r@.is_enabled == is_enabled,
            is_hash_digest_id(r@.id),
    {
        let model_count = vertices.len();
        let mut enabled_models: Vec<(usize, Option<Range<u64>>)> = Vec::new();
        let mut i: usize = 0;
        while i < model_count
            invariant
                0 <= i <= model_count,
                model_count == vertices@.len(),
                enabled_models@.len() == i,
                forall|j: int| 0 <= j < i ==> #[trigger] enabled_models@[j] == (j as usize, None::<Range<u64>>),
            decreases model_count - i,
        {
            enabled_models.push((i, None));
            i = i + 1;
        }
        MeshComponent {
            vertices,
            indices,
            vertex_buffers: None,
            index_buffers: None,
            enabled_models,
            id: time_based_id(),
            parent_entity_id: NIL_ID,
            is_initialized: false,
            is_enabled,
        }
    }

    pub fn vertex_buffers(&self) -> (r: Option<&Vec<E::Buffer>>)
        ensures
            r is Some <==> self@.vertex_buffers is Some,
            r matches Some(b) ==> b@ == self@.vertex_buffers.unwrap(),
    {
        self.vertex_buffers.as_ref()
    }

    pub fn index_buffers(&self) -> (r: Option<&Vec<E::Buffer>>)
        ensures
            r is Some <==> self@.index_buffers is Some,
            r matches Some(b) ==> b@ == self@.index_buffers.unwrap(),
    {
        self.index_buffers.as_ref()
    }

    pub fn enabled_models(&self) -> (r: &[(usize, Option<Range<u64>>)])
        ensures
            r@ == self@.enabled_models,
    {
        self.enabled_models.as_slice()
    }

    /// Replaces the entries of the models that are drawn.
    pub fn set_enabled_models(&mut self, enabled_models: Vec<(usize, Option<Range<u64>>)>)
        ensures
            final(self)@ == (MeshView { enabled_models: enabled_models@, ..old(self)@ }),
    {
        self.enabled_models = enabled_models;
    }

    /// The vertices of model `model`.
    pub fn model_vertices(&self, model: usize) -> (r: &[V])
        requires
            model < self@.vertices.len(),
        ensures
            r@ == self@.vertices[model as int],
    {
        self.vertices[model].as_slice()
    }

    /// The indices of model `model`.
    pub fn model_indices(&self, model: usize) -> (r: &[u32])
        requires
            model < self@.indices.len(),
        ensures
            r@ == self@.indices[model as int],
    {
        self.indices[model].as_slice()
    }

    /// The number of models.
    pub fn model_count(&self) -> (r: usize)
        ensures
            r == self@.vertices.len(),
    {
        self.vertices.len()
    }

    /// The number of models that have indices.
    pub fn index_model_count(&self) -> (r: usize)
        ensures
            r == self@.indices.len(),
    {
        self.indices.len()
    }

    /// Whether the mesh is drawn with index buffers: when it has indices.
    pub fn uses_index_buffers(&self) -> (r: bool)
        ensures
            r == (self@.indices.len() > 0),
    {
        self.indices.len() > 0
    }

    /// Records the buffers made for the enabled models on initialization, and marks the mesh
    /// initialized.
    pub fn set_buffers(&mut self, vertex_buffers: Vec<E::Buffer>, index_buffers: Option<Vec<E::Buffer>>)
        ensures
            final(self)@ == (MeshView {
                vertex_buffers: Some(vertex_buffers@),
                index_buffers: match index_buffers {
                    Some(b) => Some(b@),
                    None => None,
                },
                is_initialized: true,
                ..old(self)@
            }),
    {
        self.vertex_buffers = Some(vertex_buffers);
        self.index_buffers = index_buffers;
        self.is_initialized = true;
    }

    /// Whether the mesh can be drawn with vertices of `vertex_size` bytes: every enabled
    /// model exists (and has indices, when the mesh has index buffers), and every range is in
    /// order with a byte count that fits in `u64`.
    pub fn is_drawable(&self, vertex_size: u64) -> (r: bool)
        ensures
            r == drawable(self@, vertex_size),
    {
        let indexed = self.index_buffers.is_some();
        let mut i: usize = 0;
        while i < self.enabled_models.len()
            invariant
                0 <= i <= self@.enabled_models.len(),
                indexed == (self@.index_buffers is Some),
                forall|j: int| 0 <= j < i ==> {
                    let entry = #[trigger] self@.enabled_models[j];
                    &&& entry.0 < self@.vertices.len()
                    &&& self@.index_buffers is Some ==> entry.0 < self@.indices.len()
                    &&& entry.1 matches Some(r) ==> r.start <= r.end && r.end * vertex_size <= u64::MAX
                },
            decreases self@.enabled_models.len() - i,
        {
            let entry = &self.enabled_models[i];
            proof {
                assert(self@.enabled_models[i as int] == *entry);
            }
            if entry.0 >= self.vertices.len() || (indexed && entry.0 >= self.indices.len()) {
                return false;
            }
            match &entry.1 {
                Some(range) => {
                    if range.start > range.end {
                        return false;
                    }
                    if vertex_size != 0 && range.end > u64::MAX / vertex_size {
                        proof {
                            assert(range.end * vertex_size > u64::MAX) by (nonlinear_arith)
                                requires
                                    vertex_size > 0,
                                    range.end > u64::MAX / vertex_size,
                            ;
                        }
                        return false;
                    }
                    proof {
                        assert(range.end * vertex_size <= u64::MAX) by (nonlinear_arith)
                            requires
                                vertex_size == 0 || range.end <= u64::MAX / vertex_size,
                        ;
                    }
                },
                None => {},
            }
            i = i + 1;
        }
        true
    }

    /// The draw calls of the mesh, one per enabled model in order, for vertices of
    /// `vertex_size` bytes: the model's vertex buffer over the range's bytes (or whole), and
    /// either all the model's indices, when the mesh has index buffers, or the range's vertices
    /// (or all the model's vertices). Counts are taken modulo 2^32.
    pub fn draw_calls(&self, vertex_size: u64) -> (r: Vec<MeshDrawCall>)
        requires
            drawable(self@, vertex_size),
        ensures
            r@.len() == self@.enabled_models.len(),
            forall|i: int|
                0 <= i < r@.len() ==> #[trigger] r@[i] == draw_call_for(self@, self@.enabled_models[i], vertex_size, self@.index_buffers is Some),
    {
        let indexed = self.index_buffers.is_some();
        let mut calls: Vec<MeshDrawCall> = Vec::new();
        let mut i: usize = 0;
        while i < self.enabled_models.len()
            invariant
                0 <= i <= self@.enabled_models.len(),
                indexed == (self@.index_buffers is Some),
                drawable(self@, vertex_size),
                calls@.len() == i,
                forall|j: int| 0 <= j < i ==> #[trigger] calls@[j] == draw_call_for(self@, self@.enabled_models[j], vertex_size, indexed),
            decreases self@.enabled_models.len() - i,
        {
            let entry = &self.enabled_models[i];
            let model = entry.0;
            proof {
                assert(self@.enabled_models[i as int] == *entry);
            }
            let vertex_bytes = match &entry.1 {
                Some(range) => {
                    proof {
                        assert(range.start * vertex_size <= range.end * vertex_size) by (nonlinear_arith)
                            requires
                                range.start <= range.end,
                        ;
                    }
                    Some(range.start * vertex_size..range.end * vertex_size)
                },
                None => None,
            };
            let count: u32 = if indexed {
                proof {
                    assert(self.indices@[model as int]@ == self@.indices[model as int]);
                }
                self.indices[model].len() as u32
            } else {
                match &entry.1 {
                    Some(range) => (range.end - range.start) as u32,
                    None => {
                        proof {
                            assert(self.vertices@[model as int]@ == self@.vertices[model as int]);
                        }
                        self.vertices[model].len() as u32
                    },
                }
            };
            calls.push(MeshDrawCall { model, vertex_bytes, indexed, count });
            i = i + 1;
        }
        calls
    }
}

impl<V, E: EngineTypes> ComponentDetails for MeshComponent<V, E> {
    open spec fn spec_id(&self) -> ComponentId {
        self@.id
    }

    open spec fn spec_initialized(&self) -> bool {
        self@.is_initialized
    }

    open spec fn spec_parent(&self) -> EntityId {
        self@.parent_entity_id
    }

    open spec fn spec_enabled(&self) -> bool {
        self@.is_enabled
    }

    open spec fn spec_rendering_order(&self) -> i32 {
        MESH_RENDERING_ORDER
    }

    fn id(&self) -> (r: ComponentId) {
        self.id
    }

    fn is_initialized(&self) -> (r: bool) {
        self.is_initialized
    }

    fn set_initialized(&mut self) {
        self.is_initialized = true;
    }

    fn parent_entity_id(&self) -> (r: EntityId) {
        self.parent_entity_id
    }

    fn set_parent_entity(&mut self, parent_id: EntityId) {
        self.parent_entity_id = parent_id;
    }

    fn is_enabled(&self) -> (r: bool) {
        self.is_enabled
    }

    fn set_enabled_state(&mut self, enabled_state: bool) {
        self.is_enabled = enabled_state;
    }

    fn rendering_order(&self) -> (r: i32) {
        MESH_RENDERING_ORDER
    }
}

} // verus!
