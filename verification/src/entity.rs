use vstd::prelude::*;

use crate::ids::Id;

verus! {

/// The abstract state of an entity.
pub ghost struct EntityView {
    pub id: Id,
    pub children_ids: Seq<Id>,
    pub parent_entity_id: Id,
    pub is_enabled: bool,
    pub active_material: Option<Id>,
}

/// A node of a scene's entity tree.
#[derive(Debug)]
pub struct Entity {
    id: Id,
    children_ids: Vec<Id>,
    /// If this is nil, the entity is top-level and has no parent.
    parent_entity_id: Id,
    is_enabled: bool,
    active_material: Option<Id>,
}

impl View for Entity {
    type V = EntityView;

    closed spec fn view(&self) -> EntityView {
        EntityView {
            id: self.id,
            children_ids: self.children_ids@,
            parent_entity_id: self.parent_entity_id,
            is_enabled: self.is_enabled,
            active_material: self.active_material,
        }
    }
}

impl Entity {
    pub fn new(
        id: Id,
        children_ids: Vec<Id>,
        parent_entity_id: Id,
        is_enabled: bool,
        active_material: Option<Id>,
    ) -> (e: Self)
        ensures
            e@ == (EntityView { id, children_ids: children_ids@, parent_entity_id, is_enabled, active_material }),
    {
        Entity { id, children_ids, parent_entity_id, is_enabled, active_material }
    }

    pub fn active_material(&self) -> (r: Option<Id>)
        ensures
            r == self@.active_material,
    {
        self.active_material
    }

    pub fn set_active_material(&mut self, active_material: Id)
        ensures
            final(self)@ == (EntityView { active_material: Some(active_material), ..old(self)@ }),
    {
        self.active_material = Some(active_material);
    }

    pub fn id(&self) -> (r: Id)
        ensures
            r == self@.id,
    {
        self.id
    }

    pub fn toggle_enabled_state(&mut self)
        ensures
            final(self)@ == (EntityView { is_enabled: !old(self)@.is_enabled, ..old(self)@ }),
    {
        self.is_enabled = !self.is_enabled;
    }

    pub fn set_enabled_state(&mut self, desired_state: bool)
        ensures
            final(self)@ == (EntityView { is_enabled: desired_state, ..old(self)@ }),
    {
        self.is_enabled = desired_state;
    }

    pub fn is_enabled(&self) -> (r: bool)
        ensures
            r == self@.is_enabled,
    {
        self.is_enabled
    }

    pub fn children_ids(&self) -> (r: &[Id])
        ensures
            r@ == self@.children_ids,
    {
        self.children_ids.as_slice()
    }

    /// If this returns nil, the entity is top-level and has no parent.
    pub fn parent_entity_id(&self) -> (r: Id)
        ensures
            r == self@.parent_entity_id,
    {
        self.parent_entity_id
    }

    pub fn push_child(&mut self, child: Id)
        ensures
            final(self)@ == (EntityView { children_ids: old(self)@.children_ids.push(child), ..old(self)@ }),
    {
        self.children_ids.push(child);
    }
}

} // verus!
