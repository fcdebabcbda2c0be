use vstd::prelude::*;

use crate::component::{ComponentDetails, ComponentId, EntityId};
use crate::compute::Compute;
use crate::engine_types::EngineTypes;
use crate::entity::EntityView;
use crate::ids::Id;
use crate::scene::{
    entity_created, entity_views, first_with_id, outputs_with_freed, EngineRequest, Scene, SceneError, SceneView,
};

verus! {

/// Hands a workload of a component to the workload thread.
#[derive(Debug)]
pub struct WorkloadAction<W>(pub ComponentId, pub W);

impl<W> WorkloadAction<W> {
    pub fn execute<C: ComponentDetails, E: EngineTypes<Workload = W>>(self, scene: &mut Scene<C, E>)
        ensures
            final(scene)@ == (SceneView {
                workload_packets: old(scene)@.workload_packets.push(crate::scene::WorkloadPacket {
                    scene_index: old(scene)@.scene_index,
                    component_id: self.0,
                    workload: self.1,
                }),
                ..old(scene)@
            }),
    {
        scene.attach_workload(self.0, self.1);
    }
}

/// Drops one workload output of a component.
#[derive(Debug, Clone, Copy)]
pub struct WorkloadOutputFreeAction(pub ComponentId, pub usize);

impl WorkloadOutputFreeAction {
    pub fn execute<C: ComponentDetails, E: EngineTypes>(self, scene: &mut Scene<C, E>)
        requires
            old(scene)@.workload_outputs.contains_key(self.0) && old(scene)@.workload_outputs[self.0].len() > 0
                ==> self.1 < old(scene)@.workload_outputs[self.0].len(),
        ensures
            final(scene)@ == (SceneView {
                workload_outputs: outputs_with_freed(old(scene)@.workload_outputs, self.0, self.1 as int),
                ..old(scene)@
            }),
    {
        let _ = scene.free_workload_output(self.0, self.1);
    }
}

/// Sets an entity's enabled state (`Some`), or flips it (`None`).
#[derive(Debug, Clone, Copy)]
pub struct EntityToggleAction(pub EntityId, pub Option<bool>);

impl EntityToggleAction {
    pub fn execute<C: ComponentDetails, E: EngineTypes>(self, scene: &mut Scene<C, E>)
        ensures
            !old(scene)@.entities.contains_key(self.0) ==> final(scene)@ == old(scene)@,
            final(scene)@ == (SceneView { entities: final(scene)@.entities, ..old(scene)@ }),
            entity_views(final(scene)@.entities) == entities_toggled(entity_views(old(scene)@.entities), self.0, self.1),
    {
        let ghost old_entities = scene@.entities;
        if let Some(entity) = scene.get_entity_mut(self.0) {
            match self.1 {
                Some(desired_state) => entity.set_enabled_state(desired_state),
                None => entity.toggle_enabled_state(),
            }
        }
        proof {
            assert(entity_views(scene@.entities) =~= entities_toggled(entity_views(old_entities), self.0, self.1));
        }
    }
}

/// The entities after entity `entity` is set to `desired` (`Some`) or flipped (`None`);
/// unchanged when there is no such entity.
pub open spec fn entities_toggled(entities: Map<Id, EntityView>, entity: EntityId, desired: Option<bool>) -> Map<Id, EntityView> {
    if entities.contains_key(entity) {
        entities.insert(
            entity,
            EntityView {
                is_enabled: match desired {
                    Some(d) => d,
                    None => !entities[entity].is_enabled,
                },
                ..entities[entity]
            },
        )
    } else {
        entities
    }
}

/// `after` is `before` with its enabled state set to `desired` (`Some`) or flipped (`None`),
/// all else it reports unchanged.
pub open spec fn component_toggled<C: ComponentDetails>(before: C, after: C, desired: Option<bool>) -> bool {
    &&& after.spec_enabled() == match desired {
        Some(d) => d,
        None => !before.spec_enabled(),
    }
    &&& after.spec_id() == before.spec_id()
    &&& after.spec_parent() == before.spec_parent()
    &&& after.spec_initialized() == before.spec_initialized()
    &&& after.spec_rendering_order() == before.spec_rendering_order()
}

/// Sets a component's enabled state (`Some`), or flips it (`None`).
#[derive(Debug, Clone, Copy)]
pub struct ComponentToggleAction(pub ComponentId, pub Option<bool>);

impl ComponentToggleAction {
    /// Acts on the first component with the id; nothing happens if there is none.
    pub fn execute<C: ComponentDetails, E: EngineTypes>(self, scene: &mut Scene<C, E>)
        ensures
            first_with_id(old(scene)@.components, self.0) is None ==> final(scene)@ == old(scene)@,
            first_with_id(old(scene)@.components, self.0) matches Some(i) ==> {
                let before = old(scene)@.components[i];
                let after = final(scene)@.components[i];
                &&& final(scene)@ == (SceneView { components: old(scene)@.components.update(i, after), ..old(scene)@ })
                &&& component_toggled(before, after, self.1)
            },
    {
        if let Some(component) = scene.get_component_mut(self.0) {
            let component_enabled = component.is_enabled();
            match self.1 {
                Some(desired_state) => component.set_enabled_state(desired_state),
                None => component.set_enabled_state(!component_enabled),
            }
        }
    }
}

/// Registers a component as part of the user interface, after asking the engine, if an
/// action is given, to create the component's text buffer.
#[derive(Debug)]
pub struct RegisterUiComponentAction<A> {
    pub component_id: ComponentId,
    pub text_buffer_action: Option<A>,
}

impl<A> RegisterUiComponentAction<A> {
    pub fn execute<C: ComponentDetails, E: EngineTypes<EngineAction = A>>(self, scene: &mut Scene<C, E>)
        ensures
            final(scene)@ == (SceneView {
                engine_actions: match self.text_buffer_action {
                    Some(a) => old(scene)@.engine_actions.push(EngineRequest::Action(a)),
                    None => old(scene)@.engine_actions,
                },
                ui_components: old(scene)@.ui_components.push(self.component_id),
                ..old(scene)@
            }),
    {
        if let Some(action) = self.text_buffer_action {
            scene.send_engine_action(action);
        }
        scene.register_ui_component(self.component_id);
    }
}

/// Asks the engine to change the text buffer of a user interface component; the request,
/// built by the caller, carries the new text and how it is shown.
#[derive(Debug)]
pub struct UpdateTextComponentAction<A> {
    pub component_id: ComponentId,
    pub text_buffer_update: A,
}

impl<A> UpdateTextComponentAction<A> {
    pub fn execute<C: ComponentDetails, E: EngineTypes<EngineAction = A>>(self, scene: &mut Scene<C, E>)
        ensures
            final(scene)@ == (SceneView {
                engine_actions: old(scene)@.engine_actions.push(EngineRequest::Action(self.text_buffer_update)),
                ..old(scene)@
            }),
    {
        scene.send_engine_action(self.text_buffer_update);
    }
}

/// Sets the material an entity is drawn with.
#[derive(Debug, Clone, Copy)]
pub struct SetEntityActiveMaterialAction(pub EntityId, pub Id);

impl SetEntityActiveMaterialAction {
    pub fn execute<C: ComponentDetails, E: EngineTypes>(self, scene: &mut Scene<C, E>)
        ensures
            !old(scene)@.entities.contains_key(self.0) ==> final(scene)@ == old(scene)@,
            old(scene)@.entities.contains_key(self.0) ==> {
                &&& final(scene)@ == (SceneView { entities: final(scene)@.entities, ..old(scene)@ })
                &&& entity_views(final(scene)@.entities) == entity_views(old(scene)@.entities).insert(
                    self.0,
                    EntityView { active_material: Some(self.1), ..old(scene)@.entities[self.0]@ },
                )
            },
    {
        let ghost old_entities = scene@.entities;
        if let Some(entity) = scene.get_entity_mut(self.0) {
            entity.set_active_material(self.1);
        }
        proof {
            if old_entities.contains_key(self.0) {
                assert(entity_views(scene@.entities) =~= entity_views(old_entities).insert(
                    self.0,
                    EntityView { active_material: Some(self.1), ..old_entities[self.0]@ },
                ));
            }
        }
    }
}

/// Creates an entity with a fresh id.
#[derive(Debug)]
pub struct CreateEntityAction<C: ComponentDetails, E: EngineTypes> {
    pub entity_parent_id: Option<EntityId>,
    pub components: Vec<C>,
    pub computes: Vec<Compute<E>>,
    pub active_material: Option<Id>,
    pub is_enabled: bool,
}

impl<C: ComponentDetails, E: EngineTypes> CreateEntityAction<C, E> {
    pub fn execute(self, scene: &mut Scene<C, E>) -> (r: Result<Id, SceneError>)
        requires
            old(scene)@.components.len() + self.components@.len() <= usize::MAX,
        ensures
            self.entity_parent_id is Some && !old(scene)@.entities.contains_key(self.entity_parent_id.unwrap())
                ==> r == Err::<Id, SceneError>(SceneError::InvalidEntityId(self.entity_parent_id.unwrap()))
                && final(scene)@ == old(scene)@,
            !(self.entity_parent_id is Some && !old(scene)@.entities.contains_key(self.entity_parent_id.unwrap())) ==> exists|eid: Id|
                #![trigger entity_created(old(scene)@, final(scene)@, eid, self.entity_parent_id, self.components@, self.computes@, self.active_material, self.is_enabled, r)]
                eid != crate::ids::NIL_ID
                    && entity_created(old(scene)@, final(scene)@, eid, self.entity_parent_id, self.components@, self.computes@, self.active_material, self.is_enabled, r),
    {
        scene.create_entity(self.entity_parent_id, self.components, self.computes, self.active_material, self.is_enabled, None)
    }
}

/// Makes a camera component the active camera.
#[derive(Debug, Clone, Copy)]
pub struct SetActiveCameraAction(pub ComponentId);

impl SetActiveCameraAction {
    pub fn execute<C: ComponentDetails, E: EngineTypes>(self, scene: &mut Scene<C, E>)
        ensures
            final(scene)@ == (SceneView { active_camera: Some(self.0), ..old(scene)@ }),
    {
        scene.set_active_camera(Some(self.0));
    }
}

/// Leaves the scene without an active camera.
#[derive(Debug, Clone, Copy)]
pub struct DisableCameraAction;

impl DisableCameraAction {
    pub fn execute<C: ComponentDetails, E: EngineTypes>(self, scene: &mut Scene<C, E>)
        ensures
            final(scene)@ == (SceneView { active_camera: None, ..old(scene)@ }),
    {
        scene.set_active_camera(None);
    }
}

/// Asks the engine to show (`true`) or hide the cursor.
#[derive(Debug, Clone, Copy)]
pub struct SetCursorVisibilityAction(pub bool);

impl SetCursorVisibilityAction {
    pub fn execute<C: ComponentDetails, E: EngineTypes>(self, scene: &mut Scene<C, E>)
        ensures
            final(scene)@ == (SceneView {
                engine_actions: old(scene)@.engine_actions.push(EngineRequest::SetCursorVisibility(self.0)),
                ..old(scene)@
            }),
    {
        scene.send_engine_request(EngineRequest::SetCursorVisibility(self.0));
    }
}

/// Asks the engine to move the cursor to a position of the window, in physical pixels.
#[derive(Debug, Clone, Copy)]
pub struct SetCursorPositionAction(pub u32, pub u32);

impl SetCursorPositionAction {
    pub fn execute<C: ComponentDetails, E: EngineTypes>(self, scene: &mut Scene<C, E>)
        ensures
            final(scene)@ == (SceneView {
                engine_actions: old(scene)@.engine_actions.push(EngineRequest::SetCursorPosition { x: self.0, y: self.1 }),
                ..old(scene)@
            }),
    {
        scene.send_engine_request(EngineRequest::SetCursorPosition { x: self.0, y: self.1 });
    }
}

} // verus!
