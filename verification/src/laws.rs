use vstd::prelude::*;

use crate::builtin_actions::{component_toggled, entities_toggled};
use crate::descriptors::{pascal_case, pascal_piece, pascal_prefix, upper_first_char};
use crate::component::{has_rendering_order, with_rendering_order, ComponentDetails, ComponentId, EntityId};
use crate::compute::Compute;
use crate::engine_types::EngineTypes;
use crate::engine::{mouse_toggled, redraw, RedrawPlan, SceneSetView};
use crate::entity::EntityView;
use crate::ids::{Id, NIL_ID};
use crate::material::{ranges_of_attached, ranges_within, MaterialView};
use crate::pipeline::PipelineParameters;
use crate::scene::{
    enabled_walk, enabled_walk_ends, entity_created, entity_enabled, entity_views,
    component_walks_end, lemma_entity_enabled_by_fuel, material_created, material_views, outputs_with_freed,
    outputs_with_pushed, SceneError, SceneView,
};

verus! {

/// Flipping an entity's enabled state twice gives back the entities as they were.
pub proof fn lemma_entity_toggle_twice(entities: Map<Id, EntityView>, entity: EntityId)
    ensures
        entities_toggled(entities_toggled(entities, entity, None), entity, None) == entities,
{
    if entities.contains_key(entity) {
        assert(entities_toggled(entities_toggled(entities, entity, None), entity, None) =~= entities);
    }
}

/// Flipping a component's enabled state twice gives back its enabled state, and leaves all
/// else it reports as it was.
pub proof fn lemma_component_toggle_twice<C: ComponentDetails>(first: C, second: C, third: C)
    requires
        component_toggled(first, second, None),
        component_toggled(second, third, None),
    ensures
        third.spec_enabled() == first.spec_enabled(),
        third.spec_id() == first.spec_id(),
        third.spec_parent() == first.spec_parent(),
        third.spec_initialized() == first.spec_initialized(),
        third.spec_rendering_order() == first.spec_rendering_order(),
{
}

/// Dropping the workload output that was just received gives back the outputs as they were,
/// except that a component that had received none keeps an empty list of outputs.
pub proof fn lemma_output_push_then_free<W>(outputs: Map<Id, Seq<W>>, component: ComponentId, output: W)
    ensures
        outputs.contains_key(component) ==> outputs_with_freed(
            outputs_with_pushed(outputs, component, output),
            component,
            outputs[component].len() as int,
        ) == outputs,
        !outputs.contains_key(component) ==> outputs_with_freed(outputs_with_pushed(outputs, component, output), component, 0)
            == outputs.insert(component, Seq::<W>::empty()),
{
    let pushed = outputs_with_pushed(outputs, component, output);
    if outputs.contains_key(component) {
        assert(pushed[component].remove(outputs[component].len() as int) =~= outputs[component]);
        assert(outputs_with_freed(pushed, component, outputs[component].len() as int) =~= outputs);
    } else {
        assert(pushed[component].remove(0) =~= Seq::<W>::empty());
        assert(outputs_with_freed(pushed, component, 0) =~= outputs.insert(component, Seq::<W>::empty()));
    }
}

/// Attaching an entity to a material makes it attached; removing it again gives back the
/// material as it was, if the entity was not attached before.
pub proof fn lemma_attach_then_remove<E: EngineTypes>(material: MaterialView<E>, entity: Id)
    ensures
        (MaterialView { entities_attached: material.entities_attached.insert(entity), ..material }).entities_attached.contains(entity),
        !material.entities_attached.contains(entity) ==> (MaterialView {
            entities_attached: material.entities_attached.insert(entity).remove(entity),
            ..material
        }) == material,
        !(MaterialView { entities_attached: material.entities_attached.remove(entity), ..material }).entities_attached.contains(entity),
{
    if !material.entities_attached.contains(entity) {
        assert(material.entities_attached.insert(entity).remove(entity) =~= material.entities_attached);
    }
}

/// The entities after creating `eid` reach the same answers as before on every walk that does
/// not meet `eid`.
proof fn lemma_walk_unchanged_by_creation(
    old_entities: Map<Id, crate::entity::Entity>,
    new_entities: Map<Id, crate::entity::Entity>,
    eid: Id,
    parent: Option<Id>,
    is_enabled: bool,
    material: Option<Id>,
    entity: Id,
    fuel: nat,
)
    requires
        entity_views(new_entities) == crate::scene::entities_with_new(entity_views(old_entities), eid, parent, is_enabled, material),
        !old_entities.contains_key(eid),
        eid != NIL_ID,
        entity != eid,
        forall|x: Id| #[trigger] old_entities.contains_key(x) ==> old_entities[x]@.parent_entity_id != eid,
        parent matches Some(p) ==> old_entities.contains_key(p),
    ensures
        enabled_walk(new_entities, entity, fuel) == enabled_walk(old_entities, entity, fuel),
    decreases fuel,
{
    if entity != NIL_ID && fuel > 0 {
        assert(new_entities.contains_key(entity) == entity_views(new_entities).contains_key(entity));
        assert(old_entities.contains_key(entity) == entity_views(old_entities).contains_key(entity));
        if old_entities.contains_key(entity) {
            assert(entity_views(new_entities)[entity] == new_entities[entity]@);
            assert(entity_views(old_entities)[entity] == old_entities[entity]@);
            assert(new_entities[entity]@.is_enabled == old_entities[entity]@.is_enabled);
            assert(new_entities[entity]@.parent_entity_id == old_entities[entity]@.parent_entity_id);
            lemma_walk_unchanged_by_creation(
                old_entities,
                new_entities,
                eid,
                parent,
                is_enabled,
                material,
                old_entities[entity]@.parent_entity_id,
                (fuel - 1) as nat,
            );
        }
    }
}

/// Creating an entity under a fresh id, one that no entity names as its parent, does not
/// change whether any entity already in the scene is enabled; and the new entity is enabled
/// exactly when it is created enabled and its parent, if any, is enabled.
pub proof fn lemma_creation_keeps_enabled<C: ComponentDetails, E: EngineTypes>(
    old: SceneView<C, E>,
    new: SceneView<C, E>,
    eid: Id,
    parent: Option<Id>,
    components: Seq<C>,
    computes: Seq<Compute<E>>,
    material: Option<Id>,
    is_enabled: bool,
    r: Result<Id, SceneError>,
    entity: Id,
)
    requires
        entity_created(old, new, eid, parent, components, computes, material, is_enabled, r),
        parent matches Some(p) ==> old.entities.contains_key(p),
        !old.entities.contains_key(eid),
        eid != NIL_ID,
        forall|x: Id| #[trigger] old.entities.contains_key(x) ==> old.entities[x]@.parent_entity_id != eid,
    ensures
        entity != eid && enabled_walk_ends(old.entities, entity) ==> enabled_walk_ends(new.entities, entity)
            && entity_enabled(new.entities, entity) == entity_enabled(old.entities, entity),
        entity == eid && (parent matches Some(p) ==> enabled_walk_ends(old.entities, p)) ==> enabled_walk_ends(new.entities, eid)
            && entity_enabled(new.entities, eid) == (is_enabled && match parent {
                Some(p) => entity_enabled(old.entities, p),
                None => true,
            }),
{
    if entity != eid && enabled_walk_ends(old.entities, entity) {
        let fuel = choose|f: nat| #[trigger] enabled_walk(old.entities, entity, f) is Some;
        lemma_walk_unchanged_by_creation(old.entities, new.entities, eid, parent, is_enabled, material, entity, fuel);
        lemma_entity_enabled_by_fuel(old.entities, entity, fuel);
        lemma_entity_enabled_by_fuel(new.entities, entity, fuel);
    }
    if entity == eid && (parent matches Some(p) ==> enabled_walk_ends(old.entities, p)) {
        let up = match parent {
            Some(p) => p,
            None => NIL_ID,
        };
        assert(new.entities.contains_key(eid) == entity_views(new.entities).contains_key(eid));
        assert(entity_views(new.entities)[eid] == new.entities[eid]@);
        assert(new.entities[eid]@.parent_entity_id == up);
        assert(new.entities[eid]@.is_enabled == is_enabled);
        let fuel: nat = if up == NIL_ID {
            1
        } else {
            (choose|f: nat| #[trigger] enabled_walk(old.entities, up, f) is Some) + 1
        };
        if up != NIL_ID {
            lemma_walk_unchanged_by_creation(old.entities, new.entities, eid, parent, is_enabled, material, up, (fuel - 1) as nat);
            lemma_entity_enabled_by_fuel(old.entities, up, (fuel - 1) as nat);
        }
        assert(enabled_walk(new.entities, eid, fuel) is Some);
        lemma_entity_enabled_by_fuel(new.entities, eid, fuel);
        if is_enabled {
            if up == NIL_ID {
                assert(enabled_walk(new.entities, up, 0) == Some(true));
            } else {
                lemma_entity_enabled_by_fuel(new.entities, up, (fuel - 1) as nat);
            }
        }
    }
}


/// When another scene becomes active, the redraw that notices it runs no frame; the next
/// redraw initializes the newly active scene and runs a frame; and the redraws after that run
/// frames without initializing it again.
pub proof fn lemma_scene_switch_redraws<C: ComponentDetails, E: EngineTypes>(s: SceneSetView<C, E>)
    requires
        s.scenes.len() > 0,
        s.active_scene != s.last_active_scene,
    ensures
        !redraw(s).0.run_frame,
        redraw(redraw(s).1).0 == (RedrawPlan { initialize_scene: Some(s.active_scene), run_frame: true }),
        redraw(redraw(redraw(s).1).1).0 == (RedrawPlan { initialize_scene: None, run_frame: true }),
        redraw(redraw(redraw(s).1).1).1 == redraw(redraw(s).1).1,
{
}


/// A render pipeline recorded under an id is the one found under that id afterwards; the
/// others stay as they were.
pub proof fn lemma_recorded_pipeline_is_found<P>(
    pipelines: Map<Id, (PipelineParameters, P)>,
    id: Id,
    parameters: PipelineParameters,
    pipeline: P,
    other: Id,
)
    ensures
        pipelines.insert(id, (parameters, pipeline)).contains_key(id),
        pipelines.insert(id, (parameters, pipeline))[id] == (parameters, pipeline),
        other != id ==> (pipelines.insert(id, (parameters, pipeline)).contains_key(other) == pipelines.contains_key(other)),
        other != id && pipelines.contains_key(other) ==> pipelines.insert(id, (parameters, pipeline))[other] == pipelines[other],
{
}

/// A created entity is found under its id, with the parent, enabled state and material it
/// was created with and no children, and the parent lists it as its last child. Its parent
/// id is the parent it was created under, and nil when it was created at the top level; so,
/// unless the parent is itself an entity of the nil id, the parent id is nil exactly when the
/// entity is at the top level.
pub proof fn lemma_created_entity_is_found<C: ComponentDetails, E: EngineTypes>(
    old: SceneView<C, E>,
    new: SceneView<C, E>,
    eid: Id,
    parent: Option<Id>,
    components: Seq<C>,
    computes: Seq<Compute<E>>,
    material: Option<Id>,
    is_enabled: bool,
    r: Result<Id, SceneError>,
)
    requires
        entity_created(old, new, eid, parent, components, computes, material, is_enabled, r),
    ensures
        new.entities.contains_key(eid),
        new.entities[eid]@ == (EntityView {
            id: eid,
            children_ids: Seq::empty(),
            parent_entity_id: match parent {
                Some(p) => p,
                None => NIL_ID,
            },
            is_enabled,
            active_material: material,
        }),
        parent is Some && parent->0 != eid ==> new.entities.contains_key(parent->0)
            && new.entities[parent->0]@.children_ids == entity_views(old.entities)[parent->0].children_ids.push(eid),
        parent is None ==> new.entities[eid]@.parent_entity_id == NIL_ID,
        parent is Some ==> new.entities[eid]@.parent_entity_id == parent->0,
        parent != Some::<Id>(NIL_ID) ==> ((new.entities[eid]@.parent_entity_id == NIL_ID) <==> parent is None),
{
    assert(entity_views(new.entities).contains_key(eid));
    assert(entity_views(new.entities)[eid] == new.entities[eid]@);
    if let Some(p) = parent {
        if p != eid {
            assert(entity_views(new.entities).contains_key(p));
            assert(entity_views(new.entities)[p] == new.entities[p]@);
        }
    }
}

/// A created material is found under its id, new, uninitialized and attached to no entity.
pub proof fn lemma_created_material_is_found<C: ComponentDetails, E: EngineTypes>(
    old: SceneView<C, E>,
    new: SceneView<C, E>,
    mid: Id,
    pid: Id,
    parameters: PipelineParameters,
    attachments: Seq<crate::material::ShaderAttachment<E>>,
    immediate_data: Seq<u8>,
    is_enabled: bool,
)
    requires
        material_created(old, new, mid, pid, parameters, attachments, immediate_data, is_enabled),
    ensures
        new.materials.contains_key(mid),
        new.materials[mid]@.id == mid,
        new.materials[mid]@.attachments == attachments,
        new.materials[mid]@.immediate_data == immediate_data,
        new.materials[mid]@.entities_attached == Set::<Id>::empty(),
        !new.materials[mid]@.is_initialized,
        new.materials[mid]@.is_enabled == is_enabled,
{
    assert(material_views(new.materials).contains_key(mid));
    assert(material_views(new.materials)[mid] == new.materials[mid]@);
}


/// Every entity's component range is in order and lies within the components, and the ranges
/// of different entities do not overlap.
pub open spec fn groupings_well_formed<C: ComponentDetails, E: EngineTypes>(s: SceneView<C, E>) -> bool {
    &&& forall|e: Id|
        #[trigger] s.entity_component_groupings.contains_key(e) ==> s.entity_component_groupings[e].start
            <= s.entity_component_groupings[e].end <= s.components.len()
    &&& forall|e: Id, f: Id|
        #![trigger s.entity_component_groupings[e], s.entity_component_groupings[f]]
        s.entity_component_groupings.contains_key(e) && s.entity_component_groupings.contains_key(f) && e != f
            ==> s.entity_component_groupings[e].end <= s.entity_component_groupings[f].start
            || s.entity_component_groupings[f].end <= s.entity_component_groupings[e].start
}

/// Creating an entity successfully keeps the component ranges well formed: the new entity's
/// components come after all others. (A creation that fails on an unknown material records
/// the entity's range without adding its components.)
pub proof fn lemma_creation_keeps_groupings<C: ComponentDetails, E: EngineTypes>(
    old: SceneView<C, E>,
    new: SceneView<C, E>,
    eid: Id,
    parent: Option<Id>,
    components: Seq<C>,
    computes: Seq<Compute<E>>,
    material: Option<Id>,
    is_enabled: bool,
    r: Result<Id, SceneError>,
)
    requires
        entity_created(old, new, eid, parent, components, computes, material, is_enabled, r),
        r is Ok,
        groupings_well_formed(old),
        old.components.len() + components.len() <= usize::MAX,
    ensures
        groupings_well_formed(new),
{
    let n = old.components.len();
    assert forall|e: Id| #[trigger] new.entity_component_groupings.contains_key(e) implies new.entity_component_groupings[e].start
        <= new.entity_component_groupings[e].end <= new.components.len() by {
        if e != eid {
            assert(old.entity_component_groupings.contains_key(e));
        }
    }
    assert forall|e: Id, f: Id|
        #![trigger new.entity_component_groupings[e], new.entity_component_groupings[f]]
        new.entity_component_groupings.contains_key(e) && new.entity_component_groupings.contains_key(f) && e != f
            implies new.entity_component_groupings[e].end <= new.entity_component_groupings[f].start
            || new.entity_component_groupings[f].end <= new.entity_component_groupings[e].start by {
        if e != eid && f != eid {
            assert(old.entity_component_groupings[e] == new.entity_component_groupings[e]);
            assert(old.entity_component_groupings[f] == new.entity_component_groupings[f]);
        } else if e == eid {
            assert(old.entity_component_groupings.contains_key(f));
            assert(new.entity_component_groupings[f].end <= n);
        } else {
            assert(old.entity_component_groupings.contains_key(e));
            assert(new.entity_component_groupings[e].end <= n);
        }
    }
}

/// The component ranges a material takes from well-formed ranges lie within the components,
/// so the material can draw them.
pub proof fn lemma_attached_ranges_fit(
    attached: Set<Id>,
    groupings: Map<Id, core::ops::Range<usize>>,
    ranges: Seq<core::ops::Range<usize>>,
    len: nat,
)
    requires
        ranges_of_attached(attached, groupings, ranges),
        forall|e: Id| #[trigger] groupings.contains_key(e) ==> groupings[e].start <= groupings[e].end <= len,
    ensures
        ranges_within(ranges, len),
{
    let ids = choose|ids: Seq<Id>|
        #![trigger ids.to_set()]
        ids.no_duplicates() && ids.to_set() == groupings.dom().intersect(attached) && ranges == ids.map_values(|e: Id| groupings[e]);
    assert forall|i: int| 0 <= i < ranges.len() implies (#[trigger] ranges[i]).start <= ranges[i].end && ranges[i].end <= len by {
        assert(ids.to_set().contains(ids[i]));
        assert(groupings.contains_key(ids[i]));
    }
}


/// Every walk up from an entity of the scene ends, and so does the walk up from the entity of
/// every enabled component: whether an entity or a component is enabled can be told.
pub open spec fn walks_end<C: ComponentDetails, E: EngineTypes>(s: SceneView<C, E>) -> bool {
    &&& forall|x: Id| #[trigger] s.entities.contains_key(x) ==> enabled_walk_ends(s.entities, x)
    &&& component_walks_end(s)
}

/// A walk from an id that is neither nil nor in the scene never ends.
proof fn lemma_missing_walk_never_ends(entities: Map<Id, crate::entity::Entity>, x: Id)
    requires
        x != NIL_ID,
        !entities.contains_key(x),
    ensures
        !enabled_walk_ends(entities, x),
{
    assert forall|fuel: nat| !(#[trigger] enabled_walk(entities, x, fuel) is Some) by {}
}

/// Creating an entity under a fresh id, one that no entity names as its parent, under a
/// parent of the scene (or none), keeps every walk ending: whether each entity and each
/// component is enabled can still be told afterwards.
pub proof fn lemma_creation_keeps_walks_ending<C: ComponentDetails, E: EngineTypes>(
    old: SceneView<C, E>,
    new: SceneView<C, E>,
    eid: Id,
    parent: Option<Id>,
    components: Seq<C>,
    computes: Seq<Compute<E>>,
    material: Option<Id>,
    is_enabled: bool,
    r: Result<Id, SceneError>,
)
    requires
        entity_created(old, new, eid, parent, components, computes, material, is_enabled, r),
        parent matches Some(p) ==> old.entities.contains_key(p),
        !old.entities.contains_key(eid),
        eid != NIL_ID,
        forall|x: Id| #[trigger] old.entities.contains_key(x) ==> old.entities[x]@.parent_entity_id != eid,
        walks_end(old),
    ensures
        walks_end(new),
{
    assert(parent matches Some(p) ==> enabled_walk_ends(old.entities, p));
    lemma_creation_keeps_enabled(old, new, eid, parent, components, computes, material, is_enabled, r, eid);
    assert forall|x: Id| #[trigger] new.entities.contains_key(x) implies enabled_walk_ends(new.entities, x) by {
        if x != eid {
            assert(entity_views(new.entities).contains_key(x));
            assert(old.entities.contains_key(x));
            lemma_creation_keeps_enabled(old, new, eid, parent, components, computes, material, is_enabled, r, x);
        }
    }
    let n = old.components.len();
    assert forall|i: int|
        0 <= i < new.components.len() && (#[trigger] new.components[i]).spec_enabled()
            implies enabled_walk_ends(new.entities, new.components[i].spec_parent()) by {
        let c = new.components[i];
        if i < n {
            assert(new.components[i] == old.components[i]) by {
                if !(material matches Some(m) && !old.materials.contains_key(m)) {
                    assert(new.components.take(n as int)[i] == new.components[i]);
                }
            }
            let p = c.spec_parent();
            assert(enabled_walk_ends(old.entities, p));
            if p == eid {
                lemma_missing_walk_never_ends(old.entities, eid);
            }
            lemma_creation_keeps_enabled(old, new, eid, parent, components, computes, material, is_enabled, r, p);
        } else {
            let moved = choose|moved: Seq<C>|
                #![trigger crate::component::stably_sorted_from(new.components.skip(n as int), moved)]
                moved.len() == components.len()
                    && (forall|q: int| 0 <= q < moved.len() ==> crate::scene::reparented(#[trigger] moved[q], components[q], eid))
                    && crate::component::stably_sorted_from(new.components.skip(n as int), moved);
            let tail = new.components.skip(n as int);
            let k = c.spec_rendering_order();
            let pred = has_rendering_order::<C>(k);
            assert(tail[i - n] == c);
            tail.lemma_filter_contains(pred, i - n);
            assert(with_rendering_order(tail, k) == with_rendering_order(moved, k));
            moved.lemma_filter_contains_rev(pred, c);
            let q = choose|q: int| 0 <= q < moved.len() && moved[q] == c;
            assert(crate::scene::reparented(moved[q], components[q], eid));
        }
    }
}

} // verus!

verus! {

/// The characters of `s` are all ASCII.
pub open spec fn ascii_chars(s: Seq<char>) -> bool {
    forall|i: int| 0 <= i < s.len() ==> (#[trigger] s[i] as u32) < 128
}

/// No two underscores stand next to each other in `s`.
pub open spec fn no_double_underscore(s: Seq<char>) -> bool {
    forall|i: int, j: int| #![trigger s[i], s[j]] 0 <= i && j == i + 1 && j < s.len() ==> !(s[i] == '_' && s[j] == '_')
}

/// Upper-casing leaves `c` as it is.
spec fn upper_fixed(c: char) -> bool {
    upper_first_char(c) == Some(c)
}

/// The shape of a PascalCase form of an ASCII name without doubled underscores: ASCII, an
/// underscore at most at the front, and the characters that upper-casing would touch already
/// upper-cased.
spec fn pascal_shaped(t: Seq<char>) -> bool {
    &&& ascii_chars(t)
    &&& forall|i: int| 1 <= i < t.len() ==> #[trigger] t[i] != '_'
    &&& t.len() > 0 ==> upper_fixed(t[0])
    &&& t.len() > 1 && t[0] == '_' ==> upper_fixed(t[1])
}

proof fn lemma_upper_ascii(c: char)
    requires
        (c as u32) < 128,
    ensures
        upper_first_char(c) is Some,
        (upper_first_char(c)->0 as u32) < 128,
        upper_fixed(upper_first_char(c)->0),
        (upper_first_char(c)->0 == '_') == (c == '_'),
{
}

proof fn lemma_prefix_agrees(x: Seq<char>, a: Seq<char>, n: nat)
    requires
        n <= a.len(),
        a.len() <= x.len(),
        forall|i: int| 0 <= i < a.len() ==> x[i] == a[i],
    ensures
        pascal_prefix(x, n) == pascal_prefix(a, n),
    decreases n,
{
    if n > 0 {
        lemma_prefix_agrees(x, a, (n - 1) as nat);
        assert(x[n - 1] == a[n - 1]);
        if n > 1 {
            assert(x[n - 2] == a[n - 2]);
        }
        assert(pascal_piece(x, n - 1) == pascal_piece(a, n - 1));
    }
}

proof fn lemma_prefix_after_underscore(x: Seq<char>, a: Seq<char>, b: Seq<char>, k: nat)
    requires
        x == a + seq!['_'] + b,
        a.len() > 0,
        a.last() != '_',
        k <= b.len(),
    ensures
        pascal_prefix(x, (a.len() + 1 + k) as nat) == pascal_case(a) + pascal_prefix(b, k),
    decreases k,
{
    let m = a.len() as int;
    if k == 0 {
        lemma_prefix_agrees(x, a, a.len());
        assert(x[m] == '_');
        assert(x[m - 1] == a[m - 1]);
        assert(pascal_piece(x, m) == Seq::<char>::empty());
        assert(pascal_prefix(x, (m + 1) as nat) == pascal_prefix(x, m as nat) + pascal_piece(x, m));
        assert(pascal_case(a) + pascal_prefix(b, 0) =~= pascal_case(a));
        assert(pascal_prefix(x, (m + 1) as nat) =~= pascal_case(a));
    } else {
        lemma_prefix_after_underscore(x, a, b, (k - 1) as nat);
        let i = m + k;
        assert(x[i] == b[k - 1]);
        if k == 1 {
            assert(x[i - 1] == '_');
        } else {
            assert(x[i - 1] == b[k - 2]);
        }
        assert(pascal_piece(x, i) == pascal_piece(b, k - 1));
        assert(pascal_prefix(x, (i + 1) as nat) == pascal_prefix(x, i as nat) + pascal_piece(x, i));
        assert((pascal_case(a) + pascal_prefix(b, (k - 1) as nat)) + pascal_piece(b, k - 1)
            =~= pascal_case(a) + pascal_prefix(b, k));
    }
}

/// Joining two names with an underscore joins their PascalCase forms, when the first name is
/// not empty and does not end in an underscore: `foo` and `bar` give `FooBar` as `foo_bar`
/// does.
pub proof fn lemma_pascal_case_splits_at_underscore(a: Seq<char>, b: Seq<char>)
    requires
        a.len() > 0,
        a.last() != '_',
    ensures
        pascal_case(a + seq!['_'] + b) == pascal_case(a) + pascal_case(b),
{
    lemma_prefix_after_underscore(a + seq!['_'] + b, a, b, b.len());
}

proof fn lemma_pascal_prefix_shaped(s: Seq<char>, n: nat)
    requires
        ascii_chars(s),
        no_double_underscore(s),
        n <= s.len(),
    ensures
        pascal_shaped(pascal_prefix(s, n)),
        n >= 1 ==> pascal_prefix(s, n).len() >= 1 && pascal_prefix(s, n)[0] == upper_first_char(s[0])->0,
        n >= 2 && s[0] == '_' ==> pascal_prefix(s, n).len() >= 2,
    decreases n,
{
    if n > 0 {
        lemma_pascal_prefix_shaped(s, (n - 1) as nat);
        let p = pascal_prefix(s, (n - 1) as nat);
        let q = pascal_prefix(s, n);
        let j = n - 1;
        let c = s[j];
        lemma_upper_ascii(c);
        lemma_upper_ascii(s[0]);
        assert(q == p + pascal_piece(s, j));
        if j == 0 || s[j - 1] == '_' {
            let u = upper_first_char(c)->0;
            assert(pascal_piece(s, j) == seq![u]);
            assert(q =~= p.push(u));
            if u == '_' && j > 0 {
                assert(s[j - 1] == '_' && s[j] == '_');
                assert(false);
            }
            if j == 1 && s[0] == '_' {
                assert(q.len() >= 2);
            }
            assert(pascal_shaped(q));
        } else if c == '_' {
            assert(pascal_piece(s, j) == Seq::<char>::empty());
            assert(q =~= p);
        } else {
            assert(pascal_piece(s, j) == seq![c]);
            assert(q =~= p.push(c));
            if p.len() == 1 && p[0] == '_' {
                assert(s[0] == '_');
                assert(false);
            }
            assert(pascal_shaped(q));
        }
    }
}

proof fn lemma_shaped_is_fixed(t: Seq<char>, k: nat)
    requires
        pascal_shaped(t),
        k <= t.len(),
    ensures
        pascal_prefix(t, k) == t.take(k as int),
    decreases k,
{
    if k == 0 {
        assert(t.take(0) =~= Seq::<char>::empty());
    } else {
        lemma_shaped_is_fixed(t, (k - 1) as nat);
        let j = k - 1;
        if j == 0 {
            assert(pascal_piece(t, j) == seq![t[0]]);
        } else if t[j - 1] == '_' {
            assert(j - 1 == 0);
            assert(pascal_piece(t, j) == seq![t[j]]);
        } else {
            assert(t[j] != '_');
            assert(pascal_piece(t, j) == seq![t[j]]);
        }
        assert(t.take(j) + seq![t[j]] =~= t.take(k as int));
    }
}

/// The PascalCase form of an ASCII name without doubled underscores is its own PascalCase
/// form. (`a__b` gives `A_B`, whose form is `AB`: the guard is needed.)
pub proof fn lemma_pascal_case_idempotent(s: Seq<char>)
    requires
        ascii_chars(s),
        no_double_underscore(s),
    ensures
        pascal_case(pascal_case(s)) == pascal_case(s),
{
    lemma_pascal_prefix_shaped(s, s.len());
    let t = pascal_case(s);
    lemma_shaped_is_fixed(t, t.len());
    assert(t.take(t.len() as int) =~= t);
}

/// Two input events of the same mouse button leave the buttons that are down as they were.
pub proof fn lemma_mouse_toggle_twice(buttons: Set<u32>, button: u32)
    ensures
        mouse_toggled(mouse_toggled(buttons, button), button) == buttons,
{
    assert(mouse_toggled(mouse_toggled(buttons, button), button) =~= buttons);
}

} // verus!
