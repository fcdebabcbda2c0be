use std::collections::{HashMap, HashSet};
use std::ops::Range;

use vstd::prelude::*;

use crate::component::{sort_by_rendering_order, stably_sorted_from, ComponentDetails, ComponentId, EntityId};
use crate::compute::Compute;
use crate::engine_types::EngineTypes;
use crate::entity::{Entity, EntityView};
use crate::ids::{is_random_id, map_keys, new_random_id, Id, NIL_ID};
use crate::material::{Material, PipelineOptions, ShaderAttachment};
use crate::pipeline::{is_sorted_listing, PipelineManager, PipelineParameters};

verus! {

/// Why a scene operation failed.
#[derive(Debug, Clone, Copy, PartialEq, Eq)]
pub enum SceneError {
    /// The workload receiver has not been initialized.
    WorkloadRecvInitError,
    /// A workload packet could not be sent over to the worker thread.
    WorkloadSendError,
    /// No workload result was received for the component.
    WorkloadRecvError,
    /// The specified material id is invalid.
    InvalidMaterialId(Id),
    /// An engine action could not be sent.
    SendEngineActionFailure,
    /// The specified entity id is invalid.
    InvalidEntityId(Id),
    /// The specified pipeline id is invalid.
    InvalidPipelineId(Id),
}

/// Looks `key` up in `map` for change: `HashMap::get_mut`. The reference handed out is the
/// map's own value for `key`; what is left in it when the borrow ends is the map's value
/// afterwards, and nothing else in the map changes.
#[verifier::external_body]
fn map_get_mut<'a, V>(map: &'a mut HashMap<Id, V>, key: &Id) -> (r: Option<&'a mut V>)
    ensures
        r is Some <==> old(map)@.contains_key(*key),
        r is None ==> final(map)@ == old(map)@,
        r matches Some(v) ==> *v == old(map)@[*key] && final(map)@ == old(map)@.insert(*key, *final(v)),
{
    map.get_mut(key)
}

/// A request from a scene to the engine that runs it.
#[derive(Debug)]
pub enum EngineRequest<A> {
    /// Show or hide the cursor.
    SetCursorVisibility(bool),
    /// Move the cursor to a position of the window, in physical pixels.
    SetCursorPosition { x: u32, y: u32 },
    /// Run an action of the engine's own.
    Action(A),
}

/// A workload of a component, for the workload thread, with the scene it came from.
#[derive(Debug)]
pub struct WorkloadPacket<W> {
    pub scene_index: usize,
    pub component_id: ComponentId,
    pub workload: W,
}

/// The abstract state of a scene.
pub ghost struct SceneView<C, E: EngineTypes> {
    pub scene_index: usize,
    pub components: Seq<C>,
    pub entities: Map<Id, Entity>,
    pub entity_component_groupings: Map<Id, Range<usize>>,
    pub ui_components: Seq<Id>,
    pub materials: Map<Id, Material<E>>,
    pub pipeline_manager: PipelineManager<E>,
    pub pipeline_to_corresponding_materials: Map<Id, Seq<Id>>,
    pub workload_outputs: Map<Id, Seq<E::WorkloadOutput>>,
    pub engine_actions: Seq<EngineRequest<E::EngineAction>>,
    pub workload_packets: Seq<WorkloadPacket<E::Workload>>,
    pub new_pipelines_needed: bool,
    pub active_camera: Option<Id>,
    pub active_camera_buffer: Option<E::Buffer>,
    pub active_camera_bind_group: Option<E::BindGroup>,
    pub computes: Seq<Compute<E>>,
}

/// The entities, components, materials and compute shaders of one scene, and the bookkeeping
/// that ties them together.
///
/// The components of an entity occupy one range of `components`, recorded in
/// `entity_component_groupings`; materials draw the components of the entities attached to
/// them.
pub struct Scene<C: ComponentDetails, E: EngineTypes> {
    scene_index: usize,
    components: Vec<C>,
    entities: HashMap<Id, Entity>,
    entity_component_groupings: HashMap<Id, Range<usize>>,
    ui_components: Vec<Id>,
    materials: HashMap<Id, Material<E>>,
    pipeline_manager: PipelineManager<E>,
    pipeline_to_corresponding_materials: HashMap<Id, Vec<Id>>,
    workload_outputs: HashMap<Id, Vec<E::WorkloadOutput>>,
    engine_actions: Vec<EngineRequest<E::EngineAction>>,
    workload_packets: Vec<WorkloadPacket<E::Workload>>,
    pub new_pipelines_needed: bool,
    active_camera: Option<Id>,
    active_camera_buffer: Option<E::Buffer>,
    active_camera_bind_group: Option<E::BindGroup>,
    computes: Vec<Compute<E>>,
}

impl<C: ComponentDetails, E: EngineTypes> View for Scene<C, E> {
    type V = SceneView<C, E>;

    closed spec fn view(&self) -> SceneView<C, E> {
        SceneView {
            scene_index: self.scene_index,
            components: self.components@,
            entities: self.entities@,
            entity_component_groupings: self.entity_component_groupings@,
            ui_components: self.ui_components@,
            materials: self.materials@,
            pipeline_manager: self.pipeline_manager,
            pipeline_to_corresponding_materials: self.pipeline_to_corresponding_materials@.map_values(|v: Vec<Id>| v@),
            workload_outputs: self.workload_outputs@.map_values(|v: Vec<E::WorkloadOutput>| v@),
            engine_actions: self.engine_actions@,
            workload_packets: self.workload_packets@,
            new_pipelines_needed: self.new_pipelines_needed,
            active_camera: self.active_camera,
            active_camera_buffer: self.active_camera_buffer,
            active_camera_bind_group: self.active_camera_bind_group,
            computes: self.computes@,
        }
    }
}

/// Walks from `entity` up its chain of parents for at most `fuel` steps: `Some(false)` at the
/// first disabled entity, `Some(true)` on reaching nil (the parent of a top-level entity), and
/// `None` when an entity on the way is missing or the fuel runs out.
pub open spec fn enabled_walk(entities: Map<Id, Entity>, entity: Id, fuel: nat) -> Option<bool>
    decreases fuel,
{
    if entity == NIL_ID {
        Some(true)
    } else if fuel == 0 || !entities.contains_key(entity) {
        None
    } else if !entities[entity]@.is_enabled {
        Some(false)
    } else {
        enabled_walk(entities, entities[entity]@.parent_entity_id, (fuel - 1) as nat)
    }
}

/// The walk up from `entity` ends: it meets a disabled entity or nil, and every entity it
/// passes before is in the scene.
pub open spec fn enabled_walk_ends(entities: Map<Id, Entity>, entity: Id) -> bool {
    exists|fuel: nat| #[trigger] enabled_walk(entities, entity, fuel) is Some
}

/// Whether `entity` and all its ancestors are enabled, for an entity whose walk ends.
pub open spec fn entity_enabled(entities: Map<Id, Entity>, entity: Id) -> bool {
    enabled_walk(entities, entity, choose|fuel: nat| #[trigger] enabled_walk(entities, entity, fuel) is Some).unwrap()
}

/// A walk that ends within some fuel ends with the same answer given more.
pub proof fn lemma_enabled_walk_more_fuel(entities: Map<Id, Entity>, entity: Id, fuel: nat, more: nat)
    requires
        enabled_walk(entities, entity, fuel) is Some,
        fuel <= more,
    ensures
        enabled_walk(entities, entity, more) == enabled_walk(entities, entity, fuel),
    decreases fuel,
{
    if entity != NIL_ID && fuel > 0 && entities.contains_key(entity) && entities[entity]@.is_enabled {
        lemma_enabled_walk_more_fuel(entities, entities[entity]@.parent_entity_id, (fuel - 1) as nat, (more - 1) as nat);
    }
}

/// Any fuel with which the walk ends gives its answer.
pub proof fn lemma_entity_enabled_by_fuel(entities: Map<Id, Entity>, entity: Id, fuel: nat)
    requires
        enabled_walk(entities, entity, fuel) is Some,
    ensures
        enabled_walk_ends(entities, entity),
        entity_enabled(entities, entity) == enabled_walk(entities, entity, fuel).unwrap(),
{
    let chosen = choose|f: nat| #[trigger] enabled_walk(entities, entity, f) is Some;
    if chosen <= fuel {
        lemma_enabled_walk_more_fuel(entities, entity, chosen, fuel);
    } else {
        lemma_enabled_walk_more_fuel(entities, entity, fuel, chosen);
    }
}

/// An entity is enabled exactly when it is nil, or it is enabled itself and its parent is
/// enabled.
pub proof fn lemma_entity_enabled_unfolds(entities: Map<Id, Entity>, entity: Id)
    requires
        enabled_walk_ends(entities, entity),
    ensures
        entity == NIL_ID ==> entity_enabled(entities, entity),
        entity != NIL_ID ==> entities.contains_key(entity),
        entity != NIL_ID && entities[entity]@.is_enabled ==> enabled_walk_ends(entities, entities[entity]@.parent_entity_id),
        entity != NIL_ID ==> (entity_enabled(entities, entity) <==> (entities[entity]@.is_enabled
            && entity_enabled(entities, entities[entity]@.parent_entity_id))),
{
    let fuel = choose|f: nat| #[trigger] enabled_walk(entities, entity, f) is Some;
    lemma_entity_enabled_by_fuel(entities, entity, fuel);
    if entity != NIL_ID && entities[entity]@.is_enabled {
        lemma_entity_enabled_by_fuel(entities, entities[entity]@.parent_entity_id, (fuel - 1) as nat);
    }
}

impl<C: ComponentDetails, E: EngineTypes> Scene<C, E> {
    /// An empty scene with index `scene_index`.
    pub fn new(scene_index: usize) -> (s: Self)
        ensures
            s@.scene_index == scene_index,
            s@.components == Seq::<C>::empty(),
            s@.entities == Map::<Id, Entity>::empty(),
            s@.entity_component_groupings == Map::<Id, Range<usize>>::empty(),
            s@.ui_components == Seq::<Id>::empty(),
            s@.materials == Map::<Id, Material<E>>::empty(),
            s@.pipeline_manager@.pipelines == Map::<Id, (crate::pipeline::PipelineParameters, E::RenderPipeline)>::empty(),
            s@.pipeline_manager@.pipelines_queue.len() == 0,
            s@.pipeline_to_corresponding_materials == Map::<Id, Seq<Id>>::empty(),
            s@.workload_outputs == Map::<Id, Seq<E::WorkloadOutput>>::empty(),
            s@.engine_actions == Seq::<EngineRequest<E::EngineAction>>::empty(),
            s@.workload_packets == Seq::<WorkloadPacket<E::Workload>>::empty(),
            !s@.new_pipelines_needed,
            s@.active_camera is None,
            s@.active_camera_buffer is None,
            s@.active_camera_bind_group is None,
            s@.computes == Seq::<Compute<E>>::empty(),
    {
        let scene = Scene {
            scene_index,
            components: Vec::new(),
            entities: HashMap::new(),
            entity_component_groupings: HashMap::new(),
            ui_components: Vec::new(),
            materials: HashMap::new(),
            pipeline_manager: PipelineManager::new(),
            pipeline_to_corresponding_materials: HashMap::new(),
            workload_outputs: HashMap::new(),
            engine_actions: Vec::new(),
            workload_packets: Vec::new(),
            new_pipelines_needed: false,
            active_camera: None,
            active_camera_buffer: None,
            active_camera_bind_group: None,
            computes: Vec::new(),
        };
        proof {
            assert(scene@.pipeline_to_corresponding_materials =~= Map::<Id, Seq<Id>>::empty());
            assert(scene@.workload_outputs =~= Map::<Id, Seq<E::WorkloadOutput>>::empty());
        }
        scene
    }

    /// Whether `entity` and all its ancestors are enabled. The walk up the parents must end:
    /// every entity on it must be in the scene, and it must not go round a cycle.
    pub fn is_entity_enabled(&self, entity: Id) -> (r: bool)
        requires
            enabled_walk_ends(self@.entities, entity),
        ensures
            r == entity_enabled(self@.entities, entity),
    {
        let ghost entities = self.entities@;
        let ghost mut fuel: nat = choose|f: nat| #[trigger] enabled_walk(entities, entity, f) is Some;
        proof {
            lemma_entity_enabled_by_fuel(entities, entity, fuel);
        }
        let mut predecessor_entity_id = entity;
        while predecessor_entity_id != NIL_ID
            invariant
                entities == self.entities@,
                enabled_walk(entities, predecessor_entity_id, fuel) is Some,
                enabled_walk(entities, predecessor_entity_id, fuel).unwrap() == entity_enabled(entities, entity),
            decreases fuel,
        {
            let ent = self.entities.get(&predecessor_entity_id).unwrap();
            if !ent.is_enabled() {
                return false;
            }
            predecessor_entity_id = ent.parent_entity_id();
            proof {
                fuel = (fuel - 1) as nat;
            }
        }
        true
    }

    /// Whether `component` is enabled and its entity with all its ancestors too.
    pub fn is_component_enabled(&self, component: &C) -> (r: bool)
        requires
            component.spec_enabled() ==> enabled_walk_ends(self@.entities, component.spec_parent()),
        ensures
            r == (component.spec_enabled() && entity_enabled(self@.entities, component.spec_parent())),
    {
        if !component.is_enabled() {
            false
        } else {
            self.is_entity_enabled(component.parent_entity_id())
        }
    }
}

impl<C: ComponentDetails, E: EngineTypes> Scene<C, E> {
    /// The number of entities in the scene.
    pub fn entity_count(&self) -> (r: usize)
        ensures
            r == self@.entities.len(),
    {
        self.entities.len()
    }

    /// Whether the walk up from `entity` through its ancestors ends within `fuel` steps: it
    /// meets a disabled entity or nil, and every entity it passes is in the scene.
    pub fn walk_ends_within(&self, entity: Id, fuel: usize) -> (r: bool)
        ensures
            r == (enabled_walk(self@.entities, entity, fuel as nat) is Some),
    {
        let ghost entities = self.entities@;
        let mut current = entity;
        let mut left: usize = fuel;
        while current != NIL_ID
            invariant
                entities == self.entities@,
                enabled_walk(entities, current, left as nat) == enabled_walk(entities, entity, fuel as nat),
            decreases left,
        {
            if left == 0 {
                return false;
            }
            match self.entities.get(&current) {
                None => {
                    return false;
                },
                Some(ent) => {
                    if !ent.is_enabled() {
                        return true;
                    }
                    current = ent.parent_entity_id();
                    left = left - 1;
                },
            }
        }
        true
    }

    /// Whether every walk that the scene's queries take ends within `fuel` steps: those from
    /// the entities of the enabled components, and those from the entities that own
    /// components. When it does, those walks end, as `enabled_component_indices` and
    /// `update_materials` need.
    pub fn walks_end_within(&self, fuel: usize) -> (r: bool)
        ensures
            r == ((forall|i: int|
                0 <= i < self@.components.len() && (#[trigger] self@.components[i]).spec_enabled()
                    ==> enabled_walk(self@.entities, self@.components[i].spec_parent(), fuel as nat) is Some)
                && (forall|e: Id| #[trigger] self@.entity_component_groupings.contains_key(e)
                    ==> enabled_walk(self@.entities, e, fuel as nat) is Some)),
            r ==> component_walks_end(self@),
            r ==> forall|e: Id| #[trigger] self@.entity_component_groupings.contains_key(e)
                ==> enabled_walk_ends(self@.entities, e),
    {
        let ghost entities = self.entities@;
        let ghost groupings = self.entity_component_groupings@;
        let mut i: usize = 0;
        while i < self.components.len()
            invariant
                0 <= i <= self@.components.len(),
                entities == self@.entities,
                forall|j: int| 0 <= j < i && (#[trigger] self@.components[j]).spec_enabled()
                    ==> enabled_walk(entities, self@.components[j].spec_parent(), fuel as nat) is Some,
            decreases self@.components.len() - i,
        {
            let c = &self.components[i];
            if c.is_enabled() && !self.walk_ends_within(c.parent_entity_id(), fuel) {
                return false;
            }
            i = i + 1;
        }
        let ghost mut checked: Set<Id> = Set::empty();
        for item in it: self.entity_component_groupings.iter()
            invariant
                entities == self@.entities,
                groupings == self@.entity_component_groupings,
                forall|k: Id| #[trigger] groupings.contains_key(k) ==> it.seq().contains((&k, &groupings[k])),
                forall|i: int| 0 <= i < it.seq().len() ==> groupings.contains_key(*(#[trigger] it.seq()[i]).0),
                forall|k: Id| #[trigger] checked.contains(k) ==> enabled_walk(entities, k, fuel as nat) is Some,
                forall|k: Id| #[trigger] groupings.contains_key(k) ==> (checked.contains(k)
                    || exists|j: int| it.index() <= j < it.seq().len() && *(#[trigger] it.seq()[j]).0 == k),
                forall|j: int| 0 <= j < self@.components.len() && (#[trigger] self@.components[j]).spec_enabled()
                    ==> enabled_walk(entities, self@.components[j].spec_parent(), fuel as nat) is Some,
        {
            let (entity_id, _) = item;
            let ghost cur = it.index();
            proof {
                assert(item == it.seq()[cur]);
            }
            if !self.walk_ends_within(*entity_id, fuel) {
                proof {
                    assert(groupings.contains_key(*entity_id));
                }
                return false;
            }
            proof {
                let old_checked = checked;
                checked = checked.insert(*entity_id);
                assert forall|k: Id| #[trigger] groupings.contains_key(k) implies (checked.contains(k)
                    || exists|j: int| cur + 1 <= j < it.seq().len() && *(#[trigger] it.seq()[j]).0 == k) by {
                    if !old_checked.contains(k) && k != *entity_id {
                        let j = choose|j: int| cur <= j < it.seq().len() && *(#[trigger] it.seq()[j]).0 == k;
                        assert(j != cur);
                    }
                }
            }
        }
        proof {
            assert forall|e: Id| #[trigger] groupings.contains_key(e) implies enabled_walk_ends(entities, e) by {
                assert(checked.contains(e));
                lemma_entity_enabled_by_fuel(entities, e, fuel as nat);
            }
            assert forall|j: int| 0 <= j < self@.components.len() && (#[trigger] self@.components[j]).spec_enabled()
                implies enabled_walk_ends(entities, self@.components[j].spec_parent()) by {
                lemma_entity_enabled_by_fuel(entities, self@.components[j].spec_parent(), fuel as nat);
            }
        }
        true
    }
}

/// The views of the entities of `m`.
pub open spec fn entity_views(m: Map<Id, Entity>) -> Map<Id, EntityView> {
    m.map_values(|e: Entity| e@)
}

/// The views of the materials of `m`.
pub open spec fn material_views<E: EngineTypes>(m: Map<Id, Material<E>>) -> Map<Id, crate::material::MaterialView<E>> {
    m.map_values(|mat: Material<E>| mat@)
}

/// `r` is `c` moved to the entity `entity`: the same component but for its parent.
pub open spec fn reparented<C: ComponentDetails>(r: C, c: C, entity: Id) -> bool {
    &&& r.spec_parent() == entity
    &&& r.spec_id() == c.spec_id()
    &&& r.spec_enabled() == c.spec_enabled()
    &&& r.spec_initialized() == c.spec_initialized()
    &&& r.spec_rendering_order() == c.spec_rendering_order()
}

/// The entities after entity `eid` is created under `parent`: the parent lists it as a child,
/// and the new entity, without children, is recorded under `eid`.
pub open spec fn entities_with_new(
    entities: Map<Id, EntityView>,
    eid: Id,
    parent: Option<Id>,
    is_enabled: bool,
    material: Option<Id>,
) -> Map<Id, EntityView> {
    let with_child = match parent {
        Some(p) => entities.insert(p, EntityView { children_ids: entities[p].children_ids.push(eid), ..entities[p] }),
        None => entities,
    };
    with_child.insert(eid, EntityView {
        id: eid,
        children_ids: Seq::empty(),
        parent_entity_id: match parent {
            Some(p) => p,
            None => NIL_ID,
        },
        is_enabled,
        active_material: material,
    })
}

/// What creating entity `eid` does to a scene `old` when the parent, if any, exists: the
/// entity and its component range are recorded; then, if the material, if any, exists, it is
/// attached to the entity, the components (moved to the entity, sorted stably by rendering
/// order) take that range, the compute shaders are added, and the result is `Ok(eid)`; if it
/// does not exist, the result is that error and nothing more changes.
pub open spec fn entity_created<C: ComponentDetails, E: EngineTypes>(
    old: SceneView<C, E>,
    new: SceneView<C, E>,
    eid: Id,
    parent: Option<Id>,
    components: Seq<C>,
    computes: Seq<Compute<E>>,
    material: Option<Id>,
    is_enabled: bool,
    r: Result<Id, SceneError>,
) -> bool {
    let n = old.components.len();
    let material_missing = material matches Some(m) && !old.materials.contains_key(m);
    &&& entity_views(new.entities) == entities_with_new(entity_views(old.entities), eid, parent, is_enabled, material)
    &&& new.entity_component_groupings == old.entity_component_groupings.insert(
        eid,
        Range { start: n as usize, end: (n + components.len()) as usize },
    )
    &&& new.scene_index == old.scene_index
    &&& new.ui_components == old.ui_components
    &&& new.pipeline_manager == old.pipeline_manager
    &&& new.pipeline_to_corresponding_materials == old.pipeline_to_corresponding_materials
    &&& new.workload_outputs == old.workload_outputs
    &&& new.engine_actions == old.engine_actions
    &&& new.workload_packets == old.workload_packets
    &&& new.new_pipelines_needed == old.new_pipelines_needed
    &&& new.active_camera == old.active_camera
    &&& new.active_camera_buffer == old.active_camera_buffer
    &&& new.active_camera_bind_group == old.active_camera_bind_group
    &&& material_missing ==> {
        &&& r == Err::<Id, SceneError>(SceneError::InvalidMaterialId(material.unwrap()))
        &&& new.components == old.components
        &&& new.computes == old.computes
        &&& new.materials == old.materials
    }
    &&& !material_missing ==> {
        &&& r == Ok::<Id, SceneError>(eid)
        &&& new.components.len() == n + components.len()
        &&& new.components.take(n as int) == old.components
        &&& exists|moved: Seq<C>|
            #![trigger stably_sorted_from(new.components.skip(n as int), moved)]
            moved.len() == components.len()
                && (forall|i: int| 0 <= i < moved.len() ==> reparented(#[trigger] moved[i], components[i], eid))
                && stably_sorted_from(new.components.skip(n as int), moved)
        &&& new.computes == old.computes + computes
        &&& match material {
            Some(m) => material_views(new.materials) == material_views(old.materials).insert(
                m,
                crate::material::MaterialView {
                    entities_attached: old.materials[m]@.entities_attached.insert(eid),
                    ..old.materials[m]@
                },
            ),
            None => new.materials == old.materials,
        }
    }
}

impl<C: ComponentDetails, E: EngineTypes> Scene<C, E> {
    /// Creates an entity with the given components and compute shaders, under `parent` (or at
    /// the top level), drawn with `material` if one is given, and with id `id` or a fresh
    /// random one.
    ///
    /// A missing parent is an error and changes nothing. A missing material is an error that
    /// comes after the entity and its component range were recorded.
    pub fn create_entity(
        &mut self,
        parent: Option<Id>,
        components: Vec<C>,
        computes: Vec<Compute<E>>,
        material: Option<Id>,
        is_enabled: bool,
        id: Option<Id>,
    ) -> (r: Result<Id, SceneError>)
        requires
            old(self)@.components.len() + components@.len() <= usize::MAX,
        ensures
            parent is Some && !old(self)@.entities.contains_key(parent.unwrap()) ==> r == Err::<Id, SceneError>(SceneError::InvalidEntityId(parent.unwrap()))
                && final(self)@ == old(self)@,
            !(parent is Some && !old(self)@.entities.contains_key(parent.unwrap())) ==> exists|eid: Id|
                #![trigger entity_created(old(self)@, final(self)@, eid, parent, components@, computes@, material, is_enabled, r)]
                (id matches Some(i) ==> eid == i) && (id is None ==> is_random_id(eid))
                    && entity_created(old(self)@, final(self)@, eid, parent, components@, computes@, material, is_enabled, r),
    {
        let ghost old_view = self@;
        let ghost comps = components@;
        let ghost new_computes = computes@;
        let generated = new_random_id();
        let eid = match id {
            Some(i) => i,
            None => generated,
        };
        let entity = Entity::new(
            eid,
            Vec::new(),
            match parent {
                Some(p) => p,
                None => NIL_ID,
            },
            is_enabled,
            material,
        );
        if let Some(p) = parent {
            match map_get_mut(&mut self.entities, &p) {
                Some(parent_entity) => parent_entity.push_child(eid),
                None => return Err(SceneError::InvalidEntityId(p)),
            }
        }
        self.entities.insert(eid, entity);
        proof {
            assert(entity_views(self.entities@) =~= entities_with_new(entity_views(old_view.entities), eid, parent, is_enabled, material));
        }

        let mut moved = components;
        let mut i: usize = 0;
        while i < moved.len()
            invariant
                0 <= i <= moved@.len(),
                moved@.len() == components@.len(),
                forall|j: int| 0 <= j < i ==> reparented(#[trigger] moved@[j], components@[j], eid),
                forall|j: int| i <= j < moved@.len() ==> #[trigger] moved@[j] == components@[j],
            decreases moved@.len() - i,
        {
            moved[i].set_parent_entity(eid);
            i = i + 1;
        }
        let ghost moved_view = moved@;
        let mut sorted = sort_by_rendering_order(moved);
        let start = self.components.len();
        let end = start + sorted.len();
        self.entity_component_groupings.insert(eid, start..end);

        if let Some(m) = material {
            match map_get_mut(&mut self.materials, &m) {
                Some(mat) => mat.attach_entity(eid),
                None => {
                    proof {
                        assert(self@.entity_component_groupings == old_view.entity_component_groupings.insert(
                            eid,
                            Range { start: old_view.components.len() as usize, end: (old_view.components.len() + comps.len()) as usize },
                        ));
                        assert(entity_created(old_view, self@, eid, parent, comps, new_computes, material, is_enabled,
                            Err::<Id, SceneError>(SceneError::InvalidMaterialId(m))));
                    }
                    return Err(SceneError::InvalidMaterialId(m));
                },
            }
            proof {
                assert(material_views(self.materials@) =~= material_views(old_view.materials).insert(
                    m,
                    crate::material::MaterialView {
                        entities_attached: old_view.materials[m]@.entities_attached.insert(eid),
                        ..old_view.materials[m]@
                    },
                ));
            }
        }
        let ghost sorted_view = sorted@;
        self.components.append(&mut sorted);
        let mut computes = computes;
        self.computes.append(&mut computes);
        proof {
            assert(self.components@.take(start as int) =~= old_view.components);
            assert(self.components@.skip(start as int) =~= sorted_view);
            assert(stably_sorted_from(self@.components.skip(start as int), moved_view));
            assert(self@.entity_component_groupings == old_view.entity_component_groupings.insert(
                eid,
                Range { start: old_view.components.len() as usize, end: (old_view.components.len() + comps.len()) as usize },
            ));
            assert(self@.computes =~= old_view.computes + new_computes);
            assert(entity_created(old_view, self@, eid, parent, comps, new_computes, material, is_enabled, Ok::<Id, SceneError>(eid)));
        }
        Ok(eid)
    }
}

/// The index of the first component of `components` whose id is `id`, if any.
pub open spec fn first_with_id<C: ComponentDetails>(components: Seq<C>, id: ComponentId) -> Option<int> {
    if exists|i: int| 0 <= i < components.len() && (#[trigger] components[i]).spec_id() == id {
        Some(choose|i: int|
            0 <= i < components.len() && (#[trigger] components[i]).spec_id() == id
                && forall|j: int| 0 <= j < i ==> (#[trigger] components[j]).spec_id() != id)
    } else {
        None
    }
}

/// The ids of the enabled components of `components` registered in `ui_components`.
pub open spec fn enabled_ui_ids<C: ComponentDetails>(components: Seq<C>, ui_components: Seq<Id>) -> Set<Id> {
    Set::new(|id: Id| exists|i: int| 0 <= i < components.len() && (#[trigger] components[i]).spec_id() == id
        && components[i].spec_enabled() && ui_components.contains(id))
}

impl<C: ComponentDetails, E: EngineTypes> Scene<C, E> {
    /// The position of the first component with id `component_id`.
    fn position_of_component(&self, component_id: ComponentId) -> (r: Option<usize>)
        ensures
            r matches Some(i) ==> i < self@.components.len(),
            match r {
                Some(i) => first_with_id(self@.components, component_id) == Some(i as int),
                None => first_with_id(self@.components, component_id) is None,
            },
    {
        let mut i: usize = 0;
        while i < self.components.len()
            invariant
                0 <= i <= self.components@.len(),
                forall|j: int| 0 <= j < i ==> (#[trigger] self.components@[j]).spec_id() != component_id,
            decreases self.components@.len() - i,
        {
            if self.components[i].id() == component_id {
                proof {
                    let c = choose|k: int|
                        0 <= k < self.components@.len() && (#[trigger] self.components@[k]).spec_id() == component_id
                            && forall|j: int| 0 <= j < k ==> (#[trigger] self.components@[j]).spec_id() != component_id;
                    assert(self.components@[i as int].spec_id() == component_id);
                    if c < i {
                    } else if c > i {
                        assert(self.components@[i as int].spec_id() != component_id);
                    }
                }
                return Some(i);
            }
            i = i + 1;
        }
        None
    }

    pub fn get_entity(&self, entity_id: Id) -> (r: Option<&Entity>)
        ensures
            r is Some <==> self@.entities.contains_key(entity_id),
            r matches Some(e) ==> *e == self@.entities[entity_id],
    {
        self.entities.get(&entity_id)
    }

    pub fn get_entity_mut(&mut self, entity_id: Id) -> (r: Option<&mut Entity>)
        ensures
            r is Some <==> old(self)@.entities.contains_key(entity_id),
            r is None ==> final(self)@ == old(self)@,
            r matches Some(e) ==> *e == old(self)@.entities[entity_id]
                && final(self)@ == (SceneView { entities: old(self)@.entities.insert(entity_id, *final(e)), ..old(self)@ }),
    {
        map_get_mut(&mut self.entities, &entity_id)
    }

    /// The first component with id `component_id`.
    pub fn get_component(&self, component_id: ComponentId) -> (r: Option<&C>)
        ensures
            match first_with_id(self@.components, component_id) {
                Some(i) => 0 <= i < self@.components.len() && r == Some(&self@.components[i]),
                None => r is None,
            },
    {
        match self.position_of_component(component_id) {
            Some(i) => Some(&self.components[i]),
            None => None,
        }
    }

    /// The first component with id `component_id`, for change.
    pub fn get_component_mut(&mut self, component_id: ComponentId) -> (r: Option<&mut C>)
        ensures
            first_with_id(old(self)@.components, component_id) is None ==> r is None && final(self)@ == old(self)@,
            first_with_id(old(self)@.components, component_id) matches Some(i) ==> r is Some
                && 0 <= i < old(self)@.components.len()
                && *r.unwrap() == old(self)@.components[i]
                && final(self)@ == (SceneView { components: old(self)@.components.update(i, *final(r.unwrap())), ..old(self)@ }),
    {
        match self.position_of_component(component_id) {
            Some(i) => Some(&mut self.components[i]),
            None => None,
        }
    }

    pub fn get_material(&self, material_id: Id) -> (r: Option<&Material<E>>)
        ensures
            r is Some <==> self@.materials.contains_key(material_id),
            r matches Some(m) ==> *m == self@.materials[material_id],
    {
        self.materials.get(&material_id)
    }

    /// The ids of the enabled components that are registered as user interface components.
    pub fn enabled_ui_components(&self) -> (r: HashSet<Id>)
        ensures
            r@ == enabled_ui_ids(self@.components, self@.ui_components),
    {
        let mut ids: HashSet<Id> = HashSet::new();
        let mut i: usize = 0;
        while i < self.components.len()
            invariant
                0 <= i <= self.components@.len(),
                ids@ == enabled_ui_ids(self.components@.take(i as int), self.ui_components@),
            decreases self.components@.len() - i,
        {
            let comp = &self.components[i];
            let id = comp.id();
            let mut registered = false;
            let mut j: usize = 0;
            while j < self.ui_components.len()
                invariant
                    0 <= j <= self.ui_components@.len(),
                    registered <==> self.ui_components@.take(j as int).contains(id),
                decreases self.ui_components@.len() - j,
            {
                let ghost prefix = self.ui_components@.take(j as int);
                proof {
                    assert(self.ui_components@.take(j + 1) =~= prefix.push(self.ui_components@[j as int]));
                }
                if self.ui_components[j] == id {
                    registered = true;
                }
                proof {
                    let next = prefix.push(self.ui_components@[j as int]);
                    if next.contains(id) {
                        let k = choose|k: int| 0 <= k < next.len() && next[k] == id;
                        if k < j {
                            assert(prefix[k] == id);
                        }
                    }
                    if prefix.contains(id) {
                        let k = choose|k: int| 0 <= k < prefix.len() && prefix[k] == id;
                        assert(next[k] == id);
                    }
                    if self.ui_components@[j as int] == id {
                        assert(next[j as int] == id);
                    }
                }
                j = j + 1;
            }
            proof {
                assert(self.ui_components@.take(j as int) =~= self.ui_components@);
            }
            if comp.is_enabled() && registered {
                ids.insert(id);
            }
            proof {
                let next = self.components@.take(i + 1);
                assert forall|x: Id| #[trigger] ids@.contains(x) == enabled_ui_ids(next, self.ui_components@).contains(x) by {
                    assert(next[i as int] == self.components@[i as int]);
                    assert forall|k: int| 0 <= k < i implies next[k] == self.components@.take(i as int)[k] by {}
                    if enabled_ui_ids(next, self.ui_components@).contains(x) {
                        let k = choose|k: int| 0 <= k < next.len() && (#[trigger] next[k]).spec_id() == x
                            && next[k].spec_enabled() && self.ui_components@.contains(x);
                        if k < i {
                            assert(self.components@.take(i as int)[k] == next[k]);
                        }
                    }
                    if enabled_ui_ids(self.components@.take(i as int), self.ui_components@).contains(x) {
                        let k = choose|k: int| 0 <= k < i && (#[trigger] self.components@.take(i as int)[k]).spec_id() == x
                            && self.components@.take(i as int)[k].spec_enabled() && self.ui_components@.contains(x);
                        assert(next[k] == self.components@.take(i as int)[k]);
                    }
                }
                assert(ids@ =~= enabled_ui_ids(next, self.ui_components@));
            }
            i = i + 1;
        }
        proof {
            assert(self.components@.take(i as int) =~= self.components@);
        }
        ids
    }

    pub fn register_ui_component(&mut self, component_id: ComponentId)
        ensures
            final(self)@ == (SceneView { ui_components: old(self)@.ui_components.push(component_id), ..old(self)@ }),
    {
        self.ui_components.push(component_id);
    }

    /// Queues a request for the engine; the engine takes the queued requests with
    /// `take_engine_actions`.
    pub fn send_engine_request(&mut self, request: EngineRequest<E::EngineAction>)
        ensures
            final(self)@ == (SceneView { engine_actions: old(self)@.engine_actions.push(request), ..old(self)@ }),
    {
        self.engine_actions.push(request);
    }

    /// Queues an action for the engine.
    pub fn send_engine_action(&mut self, action: E::EngineAction)
        ensures
            final(self)@ == (SceneView { engine_actions: old(self)@.engine_actions.push(EngineRequest::Action(action)), ..old(self)@ }),
    {
        self.engine_actions.push(EngineRequest::Action(action));
    }

    /// Hands over the queued engine requests, oldest first, and empties the queue.
    pub fn take_engine_actions(&mut self) -> (r: Vec<EngineRequest<E::EngineAction>>)
        ensures
            r@ == old(self)@.engine_actions,
            final(self)@ == (SceneView { engine_actions: Seq::empty(), ..old(self)@ }),
    {
        let mut taken: Vec<EngineRequest<E::EngineAction>> = Vec::new();
        std::mem::swap(&mut taken, &mut self.engine_actions);
        taken
    }

    /// Queues workload `workload` of component `component_id` for the workload thread,
    /// tagged with the scene's index; the engine takes the queued packets with
    /// `take_workload_packets`.
    pub fn attach_workload(&mut self, component_id: ComponentId, workload: E::Workload)
        ensures
            final(self)@ == (SceneView {
                workload_packets: old(self)@.workload_packets.push(WorkloadPacket {
                    scene_index: old(self)@.scene_index,
                    component_id,
                    workload,
                }),
                ..old(self)@
            }),
    {
        self.workload_packets.push(WorkloadPacket { scene_index: self.scene_index, component_id, workload });
    }

    /// Hands over the queued workload packets, oldest first, and empties the queue.
    pub fn take_workload_packets(&mut self) -> (r: Vec<WorkloadPacket<E::Workload>>)
        ensures
            r@ == old(self)@.workload_packets,
            final(self)@ == (SceneView { workload_packets: Seq::empty(), ..old(self)@ }),
    {
        let mut taken: Vec<WorkloadPacket<E::Workload>> = Vec::new();
        std::mem::swap(&mut taken, &mut self.workload_packets);
        taken
    }

    pub fn set_active_camera(&mut self, camera: Option<ComponentId>)
        ensures
            final(self)@ == (SceneView { active_camera: camera, ..old(self)@ }),
    {
        self.active_camera = camera;
    }

    pub fn active_camera(&self) -> (r: Option<ComponentId>)
        ensures
            r == self@.active_camera,
    {
        self.active_camera
    }

    pub fn active_camera_buffer(&self) -> (r: Option<&E::Buffer>)
        ensures
            r == match self@.active_camera_buffer {
                Some(b) => Some(&b),
                None => None::<&E::Buffer>,
            },
    {
        match &self.active_camera_buffer {
            Some(b) => Some(b),
            None => None,
        }
    }

    pub fn active_camera_bind_group(&self) -> (r: Option<&E::BindGroup>)
        ensures
            r == match self@.active_camera_bind_group {
                Some(g) => Some(&g),
                None => None::<&E::BindGroup>,
            },
    {
        match &self.active_camera_bind_group {
            Some(g) => Some(g),
            None => None,
        }
    }

    pub fn set_active_camera_buffer(&mut self, active_camera_buffer: Option<E::Buffer>)
        ensures
            final(self)@ == (SceneView { active_camera_buffer, ..old(self)@ }),
    {
        self.active_camera_buffer = active_camera_buffer;
    }

    pub fn set_active_camera_bind_group(&mut self, active_camera_bind_group: Option<E::BindGroup>)
        ensures
            final(self)@ == (SceneView { active_camera_bind_group, ..old(self)@ }),
    {
        self.active_camera_bind_group = active_camera_bind_group;
    }

    pub fn scene_index(&self) -> (r: usize)
        ensures
            r == self@.scene_index,
    {
        self.scene_index
    }

    pub fn all_components(&self) -> (r: Vec<&C>)
        ensures
            r@.len() == self@.components.len(),
            forall|i: int| 0 <= i < r@.len() ==> *r@[i] == self@.components[i],
    {
        let mut all: Vec<&C> = Vec::new();
        let mut i: usize = 0;
        while i < self.components.len()
            invariant
                0 <= i <= self.components@.len(),
                all@.len() == i,
                forall|j: int| 0 <= j < i ==> *all@[j] == self.components@[j],
            decreases self.components@.len() - i,
        {
            all.push(&self.components[i]);
            i = i + 1;
        }
        all
    }

    pub fn all_components_mut(&mut self) -> (r: &mut [C])
        ensures
            r@ == old(self)@.components,
            final(self)@ == (SceneView { components: final(r)@, ..old(self)@ }),
    {
        self.components.as_mut_slice()
    }

    pub fn computes(&self) -> (r: &[Compute<E>])
        ensures
            r@ == self@.computes,
    {
        self.computes.as_slice()
    }

    pub fn computes_mut(&mut self) -> (r: &mut [Compute<E>])
        ensures
            r@ == old(self)@.computes,
            final(self)@ == (SceneView { computes: final(r)@, ..old(self)@ }),
    {
        self.computes.as_mut_slice()
    }

    pub fn attach_compute(&mut self, compute: Compute<E>)
        ensures
            final(self)@ == (SceneView { computes: old(self)@.computes.push(compute), ..old(self)@ }),
    {
        self.computes.push(compute);
    }

    pub fn materials(&self) -> (r: &HashMap<Id, Material<E>>)
        ensures
            r@ == self@.materials,
    {
        &self.materials
    }

    pub fn get_material_mut(&mut self, material_id: Id) -> (r: Option<&mut Material<E>>)
        ensures
            r is Some <==> old(self)@.materials.contains_key(material_id),
            r is None ==> final(self)@ == old(self)@,
            r matches Some(m) ==> *m == old(self)@.materials[material_id]
                && final(self)@ == (SceneView { materials: old(self)@.materials.insert(material_id, *final(m)), ..old(self)@ }),
    {
        map_get_mut(&mut self.materials, &material_id)
    }

    pub fn pipeline_manager(&self) -> (r: &PipelineManager<E>)
        ensures
            *r == self@.pipeline_manager,
    {
        &self.pipeline_manager
    }

    pub fn pipeline_manager_mut(&mut self) -> (r: &mut PipelineManager<E>)
        ensures
            *r == old(self)@.pipeline_manager,
            final(self)@ == (SceneView { pipeline_manager: *final(r), ..old(self)@ }),
    {
        &mut self.pipeline_manager
    }
}

/// The materials of `materials` that `ids` name, in the order of `ids`, skipping ids of no
/// material.
pub open spec fn present_materials<E: EngineTypes>(ids: Seq<Id>, materials: Map<Id, Material<E>>) -> Seq<Material<E>>
    decreases ids.len(),
{
    if ids.len() == 0 {
        Seq::empty()
    } else {
        let rest = present_materials(ids.drop_last(), materials);
        if materials.contains_key(ids.last()) {
            rest.push(materials[ids.last()])
        } else {
            rest
        }
    }
}

/// The materials that pipeline `pipeline_id` draws with, in a scene `s`.
pub open spec fn pipeline_material_ids<C, E: EngineTypes>(s: SceneView<C, E>, pipeline_id: Id) -> Seq<Id> {
    if s.pipeline_to_corresponding_materials.contains_key(pipeline_id) {
        s.pipeline_to_corresponding_materials[pipeline_id]
    } else {
        Seq::empty()
    }
}

/// Whether pipeline `pipeline_id` is built and screen-space, in a scene `s`.
pub open spec fn is_screenspace_pipeline<C, E: EngineTypes>(s: SceneView<C, E>, pipeline_id: Id) -> bool {
    s.pipeline_manager@.pipelines.contains_key(pipeline_id) && s.pipeline_manager@.pipelines[pipeline_id].0.is_screenspace
}

/// The materials that screen-space pipelines draw with, pipeline by pipeline in the order
/// `pipeline_ids`.
pub open spec fn screen_space_materials_in<C, E: EngineTypes>(s: SceneView<C, E>, pipeline_ids: Seq<Id>) -> Seq<Id> {
    pipeline_ids.map_values(|p: Id| if is_screenspace_pipeline(s, p) {
        s.pipeline_to_corresponding_materials[p]
    } else {
        Seq::<Id>::empty()
    }).flatten()
}

/// The screen-space passes, as pairs of a screen-space pipeline and a material it draws
/// with, pipeline by pipeline in the order `pipeline_ids`.
pub open spec fn screen_space_passes_in<C, E: EngineTypes>(s: SceneView<C, E>, pipeline_ids: Seq<Id>) -> Seq<(Id, Id)> {
    pipeline_ids.map_values(|p: Id| if is_screenspace_pipeline(s, p) {
        s.pipeline_to_corresponding_materials[p].map_values(|m: Id| (p, m))
    } else {
        Seq::<(Id, Id)>::empty()
    }).flatten()
}

/// The parameters of the pipeline that `pipeline` names in a scene `s`.
pub open spec fn material_pipeline_parameters<C, E: EngineTypes>(s: SceneView<C, E>, pipeline: PipelineOptions) -> crate::pipeline::PipelineParameters {
    match pipeline {
        PipelineOptions::Descriptor(d) => d,
        PipelineOptions::Id(p) => s.pipeline_manager@.pipelines[p].0,
    }
}

/// What creating material `mid` for pipeline `pid` does to a scene `old`: the material, new
/// and uninitialized, is recorded; it joins the pipeline's materials if the pipeline has
/// some, and otherwise the pipeline is queued to be built from `parameters`.
pub open spec fn material_created<C, E: EngineTypes>(
    old: SceneView<C, E>,
    new: SceneView<C, E>,
    mid: Id,
    pid: Id,
    parameters: crate::pipeline::PipelineParameters,
    attachments: Seq<ShaderAttachment<E>>,
    immediate_data: Seq<u8>,
    is_enabled: bool,
) -> bool {
    &&& material_views(new.materials) == material_views(old.materials).insert(mid, crate::material::MaterialView {
        id: mid,
        entities_attached: Set::empty(),
        component_ranges: Seq::empty(),
        attachments,
        bind_group_layout: None,
        bind_group: None,
        immediate_data,
        is_initialized: false,
        is_enabled,
        parent_entity: NIL_ID,
    })
    &&& if old.pipeline_to_corresponding_materials.contains_key(pid) {
        &&& new.pipeline_to_corresponding_materials == old.pipeline_to_corresponding_materials.insert(
            pid,
            old.pipeline_to_corresponding_materials[pid].push(mid),
        )
        &&& new.pipeline_manager == old.pipeline_manager
    } else {
        &&& new.pipeline_to_corresponding_materials == old.pipeline_to_corresponding_materials.insert(pid, seq![mid])
        &&& new.pipeline_manager@.pipelines == old.pipeline_manager@.pipelines
        &&& new.pipeline_manager@.pipelines_queue.len() == old.pipeline_manager@.pipelines_queue.len() + 1
        &&& new.pipeline_manager@.pipelines_queue.drop_last() == old.pipeline_manager@.pipelines_queue
        &&& new.pipeline_manager@.pipelines_queue.last().0 == pid
        &&& crate::pipeline::same_parameters(new.pipeline_manager@.pipelines_queue.last().1, parameters)
        &&& new.pipeline_manager@.pipelines_queue.last().2 is None
    }
    &&& new.scene_index == old.scene_index
    &&& new.components == old.components
    &&& new.entities == old.entities
    &&& new.entity_component_groupings == old.entity_component_groupings
    &&& new.ui_components == old.ui_components
    &&& new.workload_outputs == old.workload_outputs
    &&& new.engine_actions == old.engine_actions
    &&& new.workload_packets == old.workload_packets
    &&& new.new_pipelines_needed == old.new_pipelines_needed
    &&& new.active_camera == old.active_camera
    &&& new.active_camera_buffer == old.active_camera_buffer
    &&& new.active_camera_bind_group == old.active_camera_bind_group
    &&& new.computes == old.computes
}

/// The workload outputs after `output` of component `component` is received: it goes after
/// the component's earlier outputs.
pub open spec fn outputs_with_pushed<W>(outputs: Map<Id, Seq<W>>, component: ComponentId, output: W) -> Map<Id, Seq<W>> {
    outputs.insert(
        component,
        if outputs.contains_key(component) {
            outputs[component].push(output)
        } else {
            seq![output]
        },
    )
}

/// The workload outputs after output `index` of component `component` is dropped; unchanged
/// when the component has none left.
pub open spec fn outputs_with_freed<W>(outputs: Map<Id, Seq<W>>, component: ComponentId, index: int) -> Map<Id, Seq<W>> {
    if outputs.contains_key(component) && outputs[component].len() > 0 {
        outputs.insert(component, outputs[component].remove(index))
    } else {
        outputs
    }
}

impl<C: ComponentDetails, E: EngineTypes> Scene<C, E> {
    /// Records the output of a workload of component `component_id`, after its earlier
    /// outputs.
    pub fn push_workload_output(&mut self, component_id: ComponentId, output: E::WorkloadOutput)
        ensures
            final(self)@ == (SceneView {
                workload_outputs: outputs_with_pushed(old(self)@.workload_outputs, component_id, output),
                ..old(self)@
            }),
    {
        let ghost old_map = self.workload_outputs@;
        match map_get_mut(&mut self.workload_outputs, &component_id) {
            Some(outputs) => outputs.push(output),
            None => {
                let mut outputs: Vec<E::WorkloadOutput> = Vec::new();
                outputs.push(output);
                self.workload_outputs.insert(component_id, outputs);
            },
        }
        proof {
            assert(self@.workload_outputs =~= old_map.map_values(|v: Vec<E::WorkloadOutput>| v@).insert(
                component_id,
                if old_map.contains_key(component_id) {
                    old_map[component_id]@.push(output)
                } else {
                    seq![output]
                },
            ));
        }
    }

    /// The outputs of component workloads received so far.
    pub fn workload_outputs(&self) -> (r: &HashMap<Id, Vec<E::WorkloadOutput>>)
        ensures
            r@.map_values(|v: Vec<E::WorkloadOutput>| v@) == self@.workload_outputs,
    {
        &self.workload_outputs
    }

    /// Drops output `workload_output_index` of component `component_id`: an error if the
    /// component has received none; nothing happens if all its outputs were dropped already.
    pub fn free_workload_output(&mut self, component_id: ComponentId, workload_output_index: usize) -> (r: Result<(), SceneError>)
        requires
            old(self)@.workload_outputs.contains_key(component_id)
                && old(self)@.workload_outputs[component_id].len() > 0
                ==> workload_output_index < old(self)@.workload_outputs[component_id].len(),
        ensures
            !old(self)@.workload_outputs.contains_key(component_id) ==> r == Err::<(), SceneError>(SceneError::WorkloadRecvError)
                && final(self)@ == old(self)@,
            old(self)@.workload_outputs.contains_key(component_id) ==> r == Ok::<(), SceneError>(()),
            final(self)@ == (SceneView {
                workload_outputs: outputs_with_freed(old(self)@.workload_outputs, component_id, workload_output_index as int),
                ..old(self)@
            }),
    {
        let ghost old_map = self.workload_outputs@;
        match map_get_mut(&mut self.workload_outputs, &component_id) {
            Some(outputs) => {
                if outputs.len() > 0 {
                    outputs.remove(workload_output_index);
                }
                proof {
                    if old_map[component_id]@.len() == 0 {
                        assert(self.workload_outputs@.map_values(|v: Vec<E::WorkloadOutput>| v@) =~= old_map.map_values(|v: Vec<E::WorkloadOutput>| v@));
                    } else {
                        assert(self.workload_outputs@.map_values(|v: Vec<E::WorkloadOutput>| v@) =~= old_map.map_values(|v: Vec<E::WorkloadOutput>| v@).insert(
                            component_id,
                            old_map[component_id]@.remove(workload_output_index as int),
                        ));
                    }
                }
                Ok(())
            },
            None => Err(SceneError::WorkloadRecvError),
        }
    }

    /// The materials that pipeline `pipeline_id` draws with, skipping ids of no material.
    pub fn get_pipeline_materials(&self, pipeline_id: Id) -> (r: Vec<&Material<E>>)
        ensures
            r@.len() == present_materials(pipeline_material_ids(self@, pipeline_id), self@.materials).len(),
            forall|i: int| 0 <= i < r@.len() ==> *r@[i] == present_materials(pipeline_material_ids(self@, pipeline_id), self@.materials)[i],
    {
        let mut result: Vec<&Material<E>> = Vec::new();
        match self.pipeline_to_corresponding_materials.get(&pipeline_id) {
            Some(ids) => {
                let ghost all = ids@;
                let mut i: usize = 0;
                while i < ids.len()
                    invariant
                        all == ids@,
                        all == pipeline_material_ids(self@, pipeline_id),
                        0 <= i <= ids@.len(),
                        result@.len() == present_materials(all.take(i as int), self@.materials).len(),
                        forall|j: int| 0 <= j < result@.len() ==> *result@[j] == present_materials(all.take(i as int), self@.materials)[j],
                    decreases ids@.len() - i,
                {
                    proof {
                        assert(all.take(i + 1).drop_last() =~= all.take(i as int));
                    }
                    match self.materials.get(&ids[i]) {
                        Some(m) => result.push(m),
                        None => {},
                    }
                    i = i + 1;
                }
                proof {
                    assert(all.take(i as int) =~= all);
                }
            },
            None => {},
        }
        result
    }

    /// The materials of all screen-space pipelines, pipeline by pipeline in no particular
    /// order of pipelines.
    pub fn screen_space_materials(&self) -> (r: Vec<Id>)
        ensures
            exists|pipeline_ids: Seq<Id>|
                #![trigger screen_space_materials_in(self@, pipeline_ids)]
                pipeline_ids.no_duplicates() && pipeline_ids.to_set() == self@.pipeline_to_corresponding_materials.dom()
                    && r@ == screen_space_materials_in(self@, pipeline_ids),
    {
        let pipeline_ids = map_keys(&self.pipeline_to_corresponding_materials);
        let mut result: Vec<Id> = Vec::new();
        let mut i: usize = 0;
        while i < pipeline_ids.len()
            invariant
                0 <= i <= pipeline_ids@.len(),
                pipeline_ids@.to_set() == self.pipeline_to_corresponding_materials@.dom(),
                result@ == screen_space_materials_in(self@, pipeline_ids@.take(i as int)),
            decreases pipeline_ids@.len() - i,
        {
            let pipeline_id = pipeline_ids[i];
            let ghost f = |p: Id| if is_screenspace_pipeline(self@, p) {
                self@.pipeline_to_corresponding_materials[p]
            } else {
                Seq::<Id>::empty()
            };
            proof {
                assert(pipeline_ids@.take(i + 1) =~= pipeline_ids@.take(i as int).push(pipeline_id));
                assert(pipeline_ids@.take(i + 1).map_values(f) =~= pipeline_ids@.take(i as int).map_values(f).push(f(pipeline_id)));
                pipeline_ids@.take(i as int).map_values(f).lemma_flatten_push(f(pipeline_id));
                assert(pipeline_ids@.to_set().contains(pipeline_id));
            }
            let screenspace = match self.pipeline_manager.get_pipeline(pipeline_id) {
                Some(entry) => entry.0.is_screenspace,
                None => false,
            };
            if screenspace {
                let materials = self.pipeline_to_corresponding_materials.get(&pipeline_id).unwrap();
                let ghost before = result@;
                let mut j: usize = 0;
                while j < materials.len()
                    invariant
                        0 <= j <= materials@.len(),
                        result@ == before + materials@.take(j as int),
                    decreases materials@.len() - j,
                {
                    result.push(materials[j]);
                    j = j + 1;
                    proof {
                        assert(result@ =~= before + materials@.take(j as int));
                    }
                }
                proof {
                    assert(materials@.take(j as int) =~= materials@);
                }
            } else {
                proof {
                    assert(result@ =~= result@ + Seq::<Id>::empty());
                }
            }
            i = i + 1;
        }
        proof {
            assert(pipeline_ids@.take(i as int) =~= pipeline_ids@);
        }
        result
    }

    /// The screen-space passes of a frame: each screen-space pipeline with each material it
    /// draws with, in the order of its materials, pipeline by pipeline in no particular order
    /// of pipelines.
    pub fn screen_space_passes(&self) -> (r: Vec<(Id, Id)>)
        ensures
            exists|pipeline_ids: Seq<Id>|
                #![trigger screen_space_passes_in(self@, pipeline_ids)]
                pipeline_ids.no_duplicates() && pipeline_ids.to_set() == self@.pipeline_to_corresponding_materials.dom()
                    && r@ == screen_space_passes_in(self@, pipeline_ids),
    {
        let pipeline_ids = map_keys(&self.pipeline_to_corresponding_materials);
        let mut result: Vec<(Id, Id)> = Vec::new();
        let mut i: usize = 0;
        while i < pipeline_ids.len()
            invariant
                0 <= i <= pipeline_ids@.len(),
                pipeline_ids@.to_set() == self.pipeline_to_corresponding_materials@.dom(),
                result@ == screen_space_passes_in(self@, pipeline_ids@.take(i as int)),
            decreases pipeline_ids@.len() - i,
        {
            let pipeline_id = pipeline_ids[i];
            let ghost f = |p: Id| if is_screenspace_pipeline(self@, p) {
                self@.pipeline_to_corresponding_materials[p].map_values(|m: Id| (p, m))
            } else {
                Seq::<(Id, Id)>::empty()
            };
            proof {
                assert(pipeline_ids@.take(i + 1) =~= pipeline_ids@.take(i as int).push(pipeline_id));
                assert(pipeline_ids@.take(i + 1).map_values(f) =~= pipeline_ids@.take(i as int).map_values(f).push(f(pipeline_id)));
                pipeline_ids@.take(i as int).map_values(f).lemma_flatten_push(f(pipeline_id));
                assert(pipeline_ids@.to_set().contains(pipeline_id));
            }
            let screenspace = match self.pipeline_manager.get_pipeline(pipeline_id) {
                Some(entry) => entry.0.is_screenspace,
                None => false,
            };
            if screenspace {
                let materials = self.pipeline_to_corresponding_materials.get(&pipeline_id).unwrap();
                let ghost before = result@;
                let mut j: usize = 0;
                while j < materials.len()
                    invariant
                        0 <= j <= materials@.len(),
                        result@ == before + materials@.take(j as int).map_values(|m: Id| (pipeline_id, m)),
                    decreases materials@.len() - j,
                {
                    result.push((pipeline_id, materials[j]));
                    j = j + 1;
                    proof {
                        assert(materials@.take(j as int) =~= materials@.take(j - 1).push(materials@[j - 1]));
                        assert(result@ =~= before + materials@.take(j as int).map_values(|m: Id| (pipeline_id, m)));
                    }
                }
                proof {
                    assert(materials@.take(j as int) =~= materials@);
                    assert(result@ =~= before + materials@.map_values(|m: Id| (pipeline_id, m)));
                }
            } else {
                proof {
                    assert(result@ =~= result@ + Seq::<(Id, Id)>::empty());
                }
            }
            i = i + 1;
        }
        proof {
            assert(pipeline_ids@.take(i as int) =~= pipeline_ids@);
        }
        result
    }

    /// Creates a material with the given attachments and immediate data, with id `id` or a
    /// fresh random one, drawn with a new pipeline of the given parameters or with the
    /// existing pipeline of the given id. A pipeline that draws no material yet is queued to
    /// be built. An unknown pipeline id is an error and changes nothing.
    pub fn create_material(
        &mut self,
        pipeline: PipelineOptions,
        attachments: Vec<ShaderAttachment<E>>,
        immediate_data: Vec<u8>,
        is_enabled: bool,
        id: Option<Id>,
    ) -> (r: Result<Id, SceneError>)
        ensures
            pipeline is Id && !old(self)@.pipeline_manager@.pipelines.contains_key(pipeline->Id_0)
                ==> r == Err::<Id, SceneError>(SceneError::InvalidPipelineId(pipeline->Id_0)) && final(self)@ == old(self)@,
            !(pipeline is Id && !old(self)@.pipeline_manager@.pipelines.contains_key(pipeline->Id_0)) ==> exists|mid: Id, pid: Id|
                #![trigger material_created(old(self)@, final(self)@, mid, pid, material_pipeline_parameters(old(self)@, pipeline), attachments@, immediate_data@, is_enabled)]
                r == Ok::<Id, SceneError>(mid) && (id matches Some(i) ==> mid == i) && (id is None ==> is_random_id(mid))
                    && (pipeline matches PipelineOptions::Id(p) ==> pid == p)
                    && (pipeline is Descriptor ==> is_random_id(pid))
                    && material_created(old(self)@, final(self)@, mid, pid, material_pipeline_parameters(old(self)@, pipeline), attachments@, immediate_data@, is_enabled),
    {
        let ghost old_view = self@;
        let ghost old_p2m = self.pipeline_to_corresponding_materials@;
        let ghost spec_params = material_pipeline_parameters(old_view, pipeline);
        let ghost attachment_view = attachments@;
        let ghost data_view = immediate_data@;
        let generated = new_random_id();
        let mid = match id {
            Some(i) => i,
            None => generated,
        };
        let (parameters, pid) = match pipeline {
            PipelineOptions::Descriptor(descriptor) => (descriptor, new_random_id()),
            PipelineOptions::Id(uuid) => {
                match self.pipeline_manager.get_pipeline(uuid) {
                    Some(entry) => (entry.0.duplicate(), uuid),
                    None => return Err(SceneError::InvalidPipelineId(uuid)),
                }
            },
        };
        let new_material = Material::new(mid, attachments, immediate_data, is_enabled);
        match map_get_mut(&mut self.pipeline_to_corresponding_materials, &pid) {
            Some(pipeline_materials) => {
                pipeline_materials.push(mid);
                proof {
                    assert(self.pipeline_to_corresponding_materials@.map_values(|v: Vec<Id>| v@) =~= old_view.pipeline_to_corresponding_materials.insert(
                        pid,
                        old_view.pipeline_to_corresponding_materials[pid].push(mid),
                    ));
                }
            },
            None => {
                let mut ids: Vec<Id> = Vec::new();
                ids.push(mid);
                self.pipeline_to_corresponding_materials.insert(pid, ids);
                self.pipeline_manager.add_pipeline_to_creation_queue(pid, parameters, None);
                proof {
                    assert(self.pipeline_to_corresponding_materials@.map_values(|v: Vec<Id>| v@) =~= old_view.pipeline_to_corresponding_materials.insert(pid, seq![mid]));
                }
            },
        }
        self.materials.insert(mid, new_material);
        proof {
            assert(material_views(self.materials@) =~= material_views(old_view.materials).insert(mid, crate::material::MaterialView {
                id: mid,
                entities_attached: Set::empty(),
                component_ranges: Seq::empty(),
                attachments: attachment_view,
                bind_group_layout: None,
                bind_group: None,
                immediate_data: data_view,
                is_initialized: false,
                is_enabled,
                parent_entity: NIL_ID,
            }));
            if !old_view.pipeline_to_corresponding_materials.contains_key(pid) {
                assert(self@.pipeline_manager@.pipelines_queue.drop_last() =~= old_view.pipeline_manager@.pipelines_queue);
                assert(self@.pipeline_manager@.pipelines_queue.last().0 == pid);
                assert(crate::pipeline::same_parameters(self@.pipeline_manager@.pipelines_queue.last().1, spec_params));
            }
            assert(material_created(old_view, self@, mid, pid, spec_params, attachment_view, data_view, is_enabled));
        }
        Ok(mid)
    }
}

/// Whether component `i` of `s` is enabled, together with its entity and the entity's
/// ancestors.
pub open spec fn component_enabled_at<C: ComponentDetails, E: EngineTypes>(s: SceneView<C, E>, i: int) -> bool {
    s.components[i].spec_enabled() && entity_enabled(s.entities, s.components[i].spec_parent())
}

/// Every enabled component's walk up its entity's ancestors ends.
pub open spec fn component_walks_end<C: ComponentDetails, E: EngineTypes>(s: SceneView<C, E>) -> bool {
    forall|i: int|
        0 <= i < s.components.len() && (#[trigger] s.components[i]).spec_enabled()
            ==> enabled_walk_ends(s.entities, s.components[i].spec_parent())
}

/// `r` is `range` as seen by component `i` when component `i` is set aside: indices past
/// `i` move down by one.
pub open spec fn range_without(range: Range<usize>, i: usize) -> Range<usize> {
    Range {
        start: if range.start > i { (range.start - 1) as usize } else { range.start },
        end: if range.end > i { (range.end - 1) as usize } else { range.end },
    }
}

impl<C: ComponentDetails, E: EngineTypes> Scene<C, E> {
    /// The indices of the enabled components, in increasing order.
    pub fn enabled_component_indices(&self) -> (r: Vec<usize>)
        requires
            component_walks_end(self@),
        ensures
            forall|a: int, b: int| 0 <= a < b < r@.len() ==> r@[a] < r@[b],
            forall|a: int| 0 <= a < r@.len() ==> r@[a] < self@.components.len(),
            forall|i: int| 0 <= i < self@.components.len() ==> (r@.contains(i as usize) <==> component_enabled_at(self@, i)),
    {
        let mut indices: Vec<usize> = Vec::new();
        let mut i: usize = 0;
        while i < self.components.len()
            invariant
                0 <= i <= self.components@.len(),
                component_walks_end(self@),
                forall|a: int, b: int| 0 <= a < b < indices@.len() ==> indices@[a] < indices@[b],
                forall|a: int| 0 <= a < indices@.len() ==> indices@[a] < i,
                forall|j: int| 0 <= j < i ==> (indices@.contains(j as usize) <==> component_enabled_at(self@, j)),
            decreases self.components@.len() - i,
        {
            proof {
                assert(self@.components[i as int] == self.components@[i as int]);
            }
            let enabled = self.is_component_enabled(&self.components[i]);
            let ghost before = indices@;
            if enabled {
                indices.push(i);
            }
            proof {
                assert forall|j: int| 0 <= j < i + 1 implies (indices@.contains(j as usize) <==> component_enabled_at(self@, j)) by {
                    if j < i {
                        if indices@.contains(j as usize) {
                            let k = choose|k: int| 0 <= k < indices@.len() && indices@[k] == j as usize;
                            if k < before.len() {
                                assert(before[k] == j as usize);
                            }
                        }
                        if before.contains(j as usize) {
                            let k = choose|k: int| 0 <= k < before.len() && before[k] == j as usize;
                            assert(indices@[k] == j as usize);
                        }
                    } else {
                        if enabled {
                            assert(indices@[indices@.len() - 1] == i);
                        } else {
                            assert(!before.contains(i));
                        }
                    }
                }
            }
            i = i + 1;
        }
        indices
    }

    /// The component ranges of the entities as component `i` sees them while it is updated
    /// apart from the others: every index past `i` moves down by one.
    pub fn groupings_without_component(&self, i: usize) -> (r: HashMap<Id, Range<usize>>)
        ensures
            r@ == self@.entity_component_groupings.map_values(|range: Range<usize>| range_without(range, i)),
    {
        let keys = map_keys(&self.entity_component_groupings);
        let mut groupings: HashMap<Id, Range<usize>> = HashMap::new();
        let mut k: usize = 0;
        while k < keys.len()
            invariant
                0 <= k <= keys@.len(),
                keys@.no_duplicates(),
                keys@.to_set() == self.entity_component_groupings@.dom(),
                groupings@ == self.entity_component_groupings@.map_values(|range: Range<usize>| range_without(range, i)).restrict(keys@.take(k as int).to_set()),
            decreases keys@.len() - k,
        {
            let id = keys[k];
            proof {
                assert(keys@.to_set().contains(id));
            }
            let range = self.entity_component_groupings.get(&id).unwrap();
            let start = if range.start > i { range.start - 1 } else { range.start };
            let end = if range.end > i { range.end - 1 } else { range.end };
            groupings.insert(id, start..end);
            proof {
                assert(keys@.take(k + 1).to_set() =~= keys@.take(k as int).to_set().insert(id)) by {
                    assert(keys@.take(k + 1) =~= keys@.take(k as int).push(id));
                    keys@.take(k as int).lemma_push_to_set_commute(id);
                }
                assert(groupings@ =~= self.entity_component_groupings@.map_values(|range: Range<usize>| range_without(range, i)).restrict(keys@.take(k + 1).to_set()));
            }
            k = k + 1;
        }
        proof {
            assert(keys@.take(k as int) =~= keys@);
            assert(groupings@ =~= self.entity_component_groupings@.map_values(|range: Range<usize>| range_without(range, i)));
        }
        groupings
    }

    /// The component ranges of the entities that are enabled, together with all their
    /// ancestors.
    pub fn enabled_entity_groupings(&self) -> (r: HashMap<Id, Range<usize>>)
        requires
            forall|e: Id| #[trigger] self@.entity_component_groupings.contains_key(e) ==> enabled_walk_ends(self@.entities, e),
        ensures
            r@ == self@.entity_component_groupings.restrict(
                self@.entity_component_groupings.dom().filter(|e: Id| entity_enabled(self@.entities, e)),
            ),
    {
        let ghost enabled_set = self@.entity_component_groupings.dom().filter(|e: Id| entity_enabled(self@.entities, e));
        let keys = map_keys(&self.entity_component_groupings);
        let mut groupings: HashMap<Id, Range<usize>> = HashMap::new();
        let mut k: usize = 0;
        while k < keys.len()
            invariant
                0 <= k <= keys@.len(),
                keys@.no_duplicates(),
                keys@.to_set() == self.entity_component_groupings@.dom(),
                forall|e: Id| #[trigger] self@.entity_component_groupings.contains_key(e) ==> enabled_walk_ends(self@.entities, e),
                enabled_set == self@.entity_component_groupings.dom().filter(|e: Id| entity_enabled(self@.entities, e)),
                groupings@ == self.entity_component_groupings@.restrict(keys@.take(k as int).to_set().intersect(enabled_set)),
            decreases keys@.len() - k,
        {
            let id = keys[k];
            proof {
                assert(keys@.to_set().contains(id));
                assert(keys@.take(k + 1).to_set() =~= keys@.take(k as int).to_set().insert(id)) by {
                    assert(keys@.take(k + 1) =~= keys@.take(k as int).push(id));
                    keys@.take(k as int).lemma_push_to_set_commute(id);
                }
            }
            if self.is_entity_enabled(id) {
                let range = self.entity_component_groupings.get(&id).unwrap();
                groupings.insert(id, range.start..range.end);
                proof {
                    assert(groupings@ =~= self.entity_component_groupings@.restrict(keys@.take(k + 1).to_set().intersect(enabled_set)));
                }
            } else {
                proof {
                    assert(groupings@ =~= self.entity_component_groupings@.restrict(keys@.take(k + 1).to_set().intersect(enabled_set)));
                }
            }
            k = k + 1;
        }
        proof {
            assert(keys@.take(k as int) =~= keys@);
            assert(keys@.to_set().intersect(enabled_set) =~= enabled_set);
        }
        groupings
    }

    /// Recomputes, for every material, which ranges of components it draws: those of the
    /// enabled entities attached to it.
    pub fn update_materials(&mut self)
        requires
            forall|e: Id| #[trigger] old(self)@.entity_component_groupings.contains_key(e) ==> enabled_walk_ends(old(self)@.entities, e),
        ensures
            final(self)@ == (SceneView { materials: final(self)@.materials, ..old(self)@ }),
            final(self)@.materials.dom() == old(self)@.materials.dom(),
            forall|m: Id| #[trigger] old(self)@.materials.contains_key(m) ==> {
                &&& final(self)@.materials[m]@ == (crate::material::MaterialView {
                    component_ranges: final(self)@.materials[m]@.component_ranges,
                    ..old(self)@.materials[m]@
                })
                &&& crate::material::ranges_of_attached(
                    old(self)@.materials[m]@.entities_attached,
                    old(self)@.entity_component_groupings.restrict(
                        old(self)@.entity_component_groupings.dom().filter(|e: Id| entity_enabled(old(self)@.entities, e)),
                    ),
                    final(self)@.materials[m]@.component_ranges,
                )
            },
    {
        let ghost old_view = self@;
        let groupings = self.enabled_entity_groupings();
        let ids = map_keys(&self.materials);
        let mut k: usize = 0;
        while k < ids.len()
            invariant
                0 <= k <= ids@.len(),
                ids@.no_duplicates(),
                ids@.to_set() == old_view.materials.dom(),
                self@ == (SceneView { materials: self@.materials, ..old_view }),
                self@.materials.dom() == old_view.materials.dom(),
                forall|m: Id| #[trigger] old_view.materials.contains_key(m) && !ids@.take(k as int).contains(m)
                    ==> self@.materials[m] == old_view.materials[m],
                forall|m: Id| #[trigger] old_view.materials.contains_key(m) && ids@.take(k as int).contains(m) ==> {
                    &&& self@.materials[m]@ == (crate::material::MaterialView {
                        component_ranges: self@.materials[m]@.component_ranges,
                        ..old_view.materials[m]@
                    })
                    &&& crate::material::ranges_of_attached(old_view.materials[m]@.entities_attached, groupings@, self@.materials[m]@.component_ranges)
                },
            decreases ids@.len() - k,
        {
            let id = ids[k];
            proof {
                assert(ids@.to_set().contains(id));
                assert(ids@.take(k + 1) =~= ids@.take(k as int).push(id));
                assert(!ids@.take(k as int).contains(id)) by {
                    if ids@.take(k as int).contains(id) {
                        let j = choose|j: int| 0 <= j < k && ids@.take(k as int)[j] == id;
                        assert(ids@[j] == ids@[k as int]);
                    }
                }
            }
            let ghost before = self@;
            match map_get_mut(&mut self.materials, &id) {
                Some(material) => material.update(&groupings),
                None => {},
            }
            proof {
                assert forall|m: Id| #[trigger] old_view.materials.contains_key(m) && !ids@.take(k + 1).contains(m)
                    implies self@.materials[m] == old_view.materials[m] by {
                    if ids@.take(k as int).contains(m) {
                        let j = choose|j: int| 0 <= j < k && ids@.take(k as int)[j] == m;
                        assert(ids@.take(k + 1)[j] == m);
                    }
                    if m == id {
                        assert(ids@.take(k + 1)[k as int] == m);
                    }
                }
                assert forall|m: Id| #[trigger] old_view.materials.contains_key(m) && ids@.take(k + 1).contains(m) implies {
                    &&& self@.materials[m]@ == (crate::material::MaterialView {
                        component_ranges: self@.materials[m]@.component_ranges,
                        ..old_view.materials[m]@
                    })
                    &&& crate::material::ranges_of_attached(old_view.materials[m]@.entities_attached, groupings@, self@.materials[m]@.component_ranges)
                } by {
                    if m != id {
                        assert(ids@.take(k as int).contains(m));
                    }
                }
            }
            k = k + 1;
        }
        proof {
            assert(ids@.take(k as int) =~= ids@);
            assert forall|m: Id| #[trigger] old_view.materials.contains_key(m) implies ids@.take(k as int).contains(m) by {
                assert(ids@.to_set().contains(m));
            }
        }
    }
}


/// The indices of the items of `items` among the first `n` that are not initialized, in
/// increasing order.
pub open spec fn uninitialized_prefix<C: ComponentDetails>(items: Seq<C>, n: nat) -> Seq<usize>
    decreases n,
{
    if n == 0 {
        Seq::empty()
    } else {
        let before = uninitialized_prefix(items, (n - 1) as nat);
        if items[n - 1].spec_initialized() {
            before
        } else {
            before.push((n - 1) as usize)
        }
    }
}

/// The indices of the items of `items` that are not initialized, in increasing order.
pub open spec fn uninitialized_indices<C: ComponentDetails>(items: Seq<C>) -> Seq<usize> {
    uninitialized_prefix(items, items.len())
}

/// The indices of the items of `items` that are not initialized yet, in order.
fn uninitialized_in<C: ComponentDetails>(items: &Vec<C>) -> (r: Vec<usize>)
    ensures
        r@ == uninitialized_indices(items@),
{
    let mut indices: Vec<usize> = Vec::new();
    let mut i: usize = 0;
    while i < items.len()
        invariant
            0 <= i <= items@.len(),
            indices@ == uninitialized_prefix(items@, i as nat),
        decreases items@.len() - i,
    {
        if !items[i].is_initialized() {
            indices.push(i);
        }
        i = i + 1;
    }
    indices
}

impl<C: ComponentDetails, E: EngineTypes> Scene<C, E> {
    /// The components that still need initializing, by index, in order: those whose
    /// `is_initialized` is false.
    pub fn components_to_initialize(&self) -> (r: Vec<usize>)
        ensures
            r@ == uninitialized_indices(self@.components),
    {
        uninitialized_in(&self.components)
    }

    /// The compute shaders that still need initializing, by index, in order.
    pub fn computes_to_initialize(&self) -> (r: Vec<usize>)
        ensures
            r@ == uninitialized_indices(self@.computes),
    {
        uninitialized_in(&self.computes)
    }

    /// The materials that still need initializing, by id, each once.
    pub fn materials_to_initialize(&self) -> (r: Vec<Id>)
        ensures
            r@.no_duplicates(),
            r@.to_set() == Set::new(|id: Id| self@.materials.contains_key(id) && !self@.materials[id]@.is_initialized),
    {
        let ids = map_keys(&self.materials);
        let mut out: Vec<Id> = Vec::new();
        let mut k: usize = 0;
        while k < ids.len()
            invariant
                0 <= k <= ids@.len(),
                ids@.no_duplicates(),
                ids@.to_set() == self.materials@.dom(),
                out@.no_duplicates(),
                forall|m: Id| out@.contains(m) <==> (ids@.take(k as int).contains(m) && !self.materials@[m]@.is_initialized),
            decreases ids@.len() - k,
        {
            let id = ids[k];
            proof {
                assert(ids@.to_set().contains(id));
            }
            let ghost before = out@;
            let initialized = match self.materials.get(&id) {
                Some(m) => m.is_initialized(),
                None => true,
            };
            if !initialized {
                proof {
                    assert(!before.contains(id)) by {
                        if before.contains(id) {
                            let t0 = ids@.take(k as int);
                            assert(t0.contains(id));
                            let j = choose|j: int| 0 <= j < t0.len() && t0[j] == id;
                            assert(ids@[j] == ids@[k as int]);
                        }
                    }
                }
                out.push(id);
            }
            proof {
                let t1 = ids@.take(k + 1);
                let t0 = ids@.take(k as int);
                assert forall|m: Id| out@.contains(m) <==> (t1.contains(m) && !self.materials@[m]@.is_initialized) by {
                    if t1.contains(m) && m != id {
                        let j = choose|j: int| 0 <= j < t1.len() && t1[j] == m;
                        assert(t0[j] == m);
                    }
                    if t0.contains(m) {
                        let j = choose|j: int| 0 <= j < t0.len() && t0[j] == m;
                        assert(t1[j] == m);
                    }
                    if m == id {
                        assert(t1[k as int] == m);
                    }
                    if out@.contains(m) && m != id {
                        let j = choose|j: int| #![auto] 0 <= j < out@.len() && out@[j] == m;
                        if !initialized {
                            assert(j < before.len());
                        }
                        assert(before[j] == m);
                    }
                    if before.contains(m) {
                        let j = choose|j: int| #![auto] 0 <= j < before.len() && before[j] == m;
                        assert(out@[j] == m);
                    }
                    if m == id && !initialized {
                        assert(out@[out@.len() - 1] == m);
                    }
                }
            }
            k = k + 1;
        }
        proof {
            assert(ids@.take(k as int) =~= ids@);
            assert(out@.to_set() =~= Set::new(|id: Id| self@.materials.contains_key(id) && !self@.materials[id]@.is_initialized)) by {
                assert forall|m: Id| #[trigger] out@.to_set().contains(m) <==> (self@.materials.contains_key(m) && !self@.materials[m]@.is_initialized) by {
                    assert(ids@.to_set().contains(m) <==> ids@.contains(m));
                }
            }
        }
        out
    }
}


/// One pipeline of a frame's main pass: the pipeline, whether the camera's bind group and
/// the materials' immediate data are set for it, and the materials it draws, in order.
#[derive(Debug)]
pub struct PipelineDraw {
    pub pipeline_id: Id,
    pub uses_camera: bool,
    pub sets_immediates: bool,
    pub materials: Vec<Id>,
}

/// The enabled materials that pipeline `pipeline_id` draws with, in a scene `s`, in order.
pub open spec fn enabled_pipeline_materials<C, E: EngineTypes>(s: SceneView<C, E>, pipeline_id: Id) -> Seq<Id> {
    pipeline_material_ids(s, pipeline_id).filter(|m: Id| s.materials.contains_key(m) && s.materials[m]@.is_enabled)
}

/// `d` draws pipeline `pipeline_id` of parameters `parameters` in a scene `s`.
pub open spec fn draw_of<C, E: EngineTypes>(s: SceneView<C, E>, d: PipelineDraw, pipeline_id: Id, parameters: PipelineParameters) -> bool {
    &&& d.pipeline_id == pipeline_id
    &&& d.uses_camera == parameters.uses_camera
    &&& d.sets_immediates == (parameters.immediate_size != 0)
    &&& d.materials@ == enabled_pipeline_materials(s, pipeline_id)
}

/// Whether a listed pipeline draws in the main pass: all but screen-space ones.
pub open spec fn drawn_in_main_pass<'a, P>() -> spec_fn((Id, &'a PipelineParameters, &'a P)) -> bool {
    |e: (Id, &'a PipelineParameters, &'a P)| !e.1.is_screenspace
}

impl<C: ComponentDetails, E: EngineTypes> Scene<C, E> {
    /// The enabled materials of pipeline `pipeline_id`, in order.
    fn enabled_materials_of(&self, pipeline_id: Id) -> (r: Vec<Id>)
        ensures
            r@ == enabled_pipeline_materials(self@, pipeline_id),
    {
        let mut out: Vec<Id> = Vec::new();
        match self.pipeline_to_corresponding_materials.get(&pipeline_id) {
            Some(ids) => {
                let ghost pred = |m: Id| self@.materials.contains_key(m) && self@.materials[m]@.is_enabled;
                let mut k: usize = 0;
                while k < ids.len()
                    invariant
                        0 <= k <= ids@.len(),
                        pred == (|m: Id| self@.materials.contains_key(m) && self@.materials[m]@.is_enabled),
                        out@ == ids@.take(k as int).filter(pred),
                    decreases ids@.len() - k,
                {
                    let id = ids[k];
                    proof {
                        assert(ids@.take(k + 1) =~= ids@.take(k as int).push(id));
                        ids@.take(k as int).lemma_filter_push(id, pred);
                    }
                    match self.materials.get(&id) {
                        Some(m) => {
                            if m.is_enabled() {
                                out.push(id);
                            }
                        },
                        None => {},
                    }
                    k = k + 1;
                }
                proof {
                    assert(ids@.take(k as int) =~= ids@);
                    assert(self@.pipeline_to_corresponding_materials[pipeline_id] == ids@);
                }
            },
            None => {
                proof {
                    assert(!self@.pipeline_to_corresponding_materials.contains_key(pipeline_id));
                    reveal(Seq::filter);
                }
            },
        }
        out
    }

    /// What a frame's main pass draws: the built pipelines that are not screen-space, by
    /// non-decreasing render priority, each with its enabled materials in order.
    pub fn render_plan(&self) -> (r: Vec<PipelineDraw>)
        ensures
            exists|listing: Seq<(Id, &PipelineParameters, &E::RenderPipeline)>|
                #![trigger is_sorted_listing(listing, self@.pipeline_manager@.pipelines)]
                is_sorted_listing(listing, self@.pipeline_manager@.pipelines) && {
                    let drawn = listing.filter(drawn_in_main_pass::<E::RenderPipeline>());
                    &&& r@.len() == drawn.len()
                    &&& forall|i: int| 0 <= i < r@.len() ==> draw_of(self@, #[trigger] r@[i], drawn[i].0, *drawn[i].1)
                },
            forall|i: int| 0 <= i < r@.len() ==> {
                let parameters = self@.pipeline_manager@.pipelines[(#[trigger] r@[i]).pipeline_id].0;
                &&& self@.pipeline_manager@.pipelines.contains_key(r@[i].pipeline_id)
                &&& !parameters.is_screenspace
                &&& r@[i].uses_camera == parameters.uses_camera
                &&& r@[i].sets_immediates == (parameters.immediate_size != 0)
            },
    {
        let listing = self.pipeline_manager.sorted_pipelines();
        let ghost pred = drawn_in_main_pass::<E::RenderPipeline>();
        let mut draws: Vec<PipelineDraw> = Vec::new();
        let mut k: usize = 0;
        while k < listing.len()
            invariant
                0 <= k <= listing@.len(),
                pred == drawn_in_main_pass::<E::RenderPipeline>(),
                draws@.len() == listing@.take(k as int).filter(pred).len(),
                forall|i: int| 0 <= i < draws@.len() ==> draw_of(self@, #[trigger] draws@[i], listing@.take(k as int).filter(pred)[i].0, *listing@.take(k as int).filter(pred)[i].1),
            decreases listing@.len() - k,
        {
            let (id, parameters, _) = listing[k];
            let ghost entry = listing@[k as int];
            proof {
                assert(listing@.take(k + 1) =~= listing@.take(k as int).push(entry));
                listing@.take(k as int).lemma_filter_push(entry, pred);
            }
            if !parameters.is_screenspace {
                let materials = self.enabled_materials_of(id);
                draws.push(PipelineDraw {
                    pipeline_id: id,
                    uses_camera: parameters.uses_camera,
                    sets_immediates: parameters.immediate_size != 0,
                    materials,
                });
            }
            k = k + 1;
        }
        proof {
            assert(listing@.take(k as int) =~= listing@);
            assert(is_sorted_listing(listing@, self@.pipeline_manager@.pipelines));
            crate::plan_laws::lemma_render_plan_draws_main_pipelines(self@, draws@);
        }
        draws
    }
}


impl<C: ComponentDetails, E: EngineTypes> Scene<C, E> {
    /// What component `i` works with while it updates: itself and the components before and
    /// after it (for change), the compute shaders and materials (for change), and the
    /// workload outputs received and the entities. Whatever is changed through them is what
    /// the scene holds afterwards.
    pub fn update_context(&mut self, i: usize) -> (r: (
        &mut C,
        &mut [C],
        &mut [C],
        &mut [Compute<E>],
        &mut HashMap<Id, Material<E>>,
        &HashMap<Id, Vec<E::WorkloadOutput>>,
        &HashMap<Id, Entity>,
    ))
        requires
            i < old(self)@.components.len(),
        ensures
            *r.0 == old(self)@.components[i as int],
            r.1@ == old(self)@.components.subrange(0, i as int),
            r.2@ == old(self)@.components.subrange(i + 1, old(self)@.components.len() as int),
            r.3@ == old(self)@.computes,
            r.4@ == old(self)@.materials,
            r.5@.map_values(|v: Vec<E::WorkloadOutput>| v@) == old(self)@.workload_outputs,
            r.6@ == old(self)@.entities,
            final(self)@ == (SceneView {
                components: final(r.1)@ + seq![*final(r.0)] + final(r.2)@,
                computes: final(r.3)@,
                materials: final(r.4)@,
                ..old(self)@
            }),
    {
        let (before, rest) = self.components.as_mut_slice().split_at_mut(i);
        let (head, after) = rest.split_at_mut(1);
        proof {
            assert forall|s: Seq<C>, v: C| s.len() == 1 implies #[trigger] s.update(0, v) =~= seq![v] by {}
            assert forall|a: Seq<C>, b: Seq<C>, c: Seq<C>| #[trigger] (a + (b + c)) =~= a + b + c by {}
        }
        let current = head.first_mut().unwrap();
        (current, before, after, self.computes.as_mut_slice(), &mut self.materials, &self.workload_outputs, &self.entities)
    }
}

} // verus!
