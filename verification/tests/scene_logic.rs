use std::collections::HashMap;
use std::ops::Range;

use v4::builtin_actions::{
    ComponentToggleAction, CreateEntityAction, DisableCameraAction, EntityToggleAction,
    RegisterUiComponentAction, SetActiveCameraAction, SetCursorPositionAction,
    SetCursorVisibilityAction, SetEntityActiveMaterialAction, UpdateTextComponentAction, WorkloadAction,
    WorkloadOutputFreeAction,
};
use v4::component::{sort_by_rendering_order, ComponentDetails};
use v4::compute::Compute;
use v4::engine_types::EngineTypes;
use v4::camera::{camera_step, CameraStep};
use v4::engine::{FrameInput, RedrawPlan, SceneSet};
use v4::entity::Entity;
use v4::ids::{is_nil, new_random_id, time_based_id, Id, NIL_ID};
use v4::material::{Material, PipelineOptions};
use v4::pipeline::PipelineParameters;
use v4::scene::{EngineRequest, Scene, SceneError};

#[derive(Debug)]
struct TestEngine;

impl EngineTypes for TestEngine {
    type Buffer = u32;
    type BindGroup = u32;
    type BindGroupLayout = u32;
    type RenderPipeline = u32;
    type ComputePipeline = u32;
    type TextureView = u32;
    type TextureFormat = u32;
    type WorkloadOutput = String;
    type Workload = u64;
    type EngineAction = String;
}

#[derive(Debug, Clone, PartialEq)]
struct TestComponent {
    id: Id,
    parent: Id,
    enabled: bool,
    initialized: bool,
    order: i32,
}

impl ComponentDetails for TestComponent {
    fn spec_id(&self) -> Id {
        self.id
    }

    fn spec_initialized(&self) -> bool {
        self.initialized
    }

    fn spec_parent(&self) -> Id {
        self.parent
    }

    fn spec_enabled(&self) -> bool {
        self.enabled
    }

    fn spec_rendering_order(&self) -> i32 {
        self.order
    }

    fn id(&self) -> Id {
        self.id
    }

    fn is_initialized(&self) -> bool {
        self.initialized
    }

    fn set_initialized(&mut self) {
        self.initialized = true;
    }

    fn parent_entity_id(&self) -> Id {
        self.parent
    }

    fn set_parent_entity(&mut self, parent_id: Id) {
        self.parent = parent_id;
    }

    fn is_enabled(&self) -> bool {
        self.enabled
    }

    fn set_enabled_state(&mut self, enabled_state: bool) {
        self.enabled = enabled_state;
    }

    fn rendering_order(&self) -> i32 {
        self.order
    }
}

type TestScene = Scene<TestComponent, TestEngine>;

fn component(id: Id, order: i32) -> TestComponent {
    TestComponent { id, parent: NIL_ID, enabled: true, initialized: false, order }
}

fn ids_of(scene: &TestScene) -> Vec<Id> {
    scene.all_components().iter().map(|c| c.id).collect()
}

#[test]
fn random_ids_are_version_four_and_not_nil() {
    let a = new_random_id();
    let b = new_random_id();
    assert_ne!(a, NIL_ID);
    assert_eq!((a >> 76) & 0xf, 4);
    assert_eq!((a >> 62) & 0x3, 2);
    assert_ne!(a, b);
    assert!(!is_nil(a));
    assert!(is_nil(NIL_ID));
    assert!(time_based_id() <= u64::MAX as u128);
}

#[test]
fn entity_accessors_and_toggles() {
    let mut e = Entity::new(7, vec![1, 2], NIL_ID, true, None);
    assert_eq!(e.id(), 7);
    assert_eq!(e.children_ids(), &[1, 2]);
    assert_eq!(e.parent_entity_id(), NIL_ID);
    assert!(e.is_enabled());
    e.toggle_enabled_state();
    assert!(!e.is_enabled());
    e.toggle_enabled_state();
    assert!(e.is_enabled());
    e.set_enabled_state(false);
    assert!(!e.is_enabled());
    e.push_child(3);
    assert_eq!(e.children_ids(), &[1, 2, 3]);
    assert_eq!(e.active_material(), None);
    e.set_active_material(9);
    assert_eq!(e.active_material(), Some(9));
}

#[test]
fn create_entity_records_entity_and_components() {
    let mut scene = TestScene::new(3);
    assert_eq!(scene.scene_index(), 3);
    let r = scene.create_entity(None, vec![component(11, 0), component(12, 0)], vec![], None, true, Some(100));
    assert_eq!(r, Ok(100));
    let entity = scene.get_entity(100).unwrap();
    assert_eq!(entity.parent_entity_id(), NIL_ID);
    assert!(entity.is_enabled());
    assert_eq!(ids_of(&scene), vec![11, 12]);
    assert_eq!(scene.get_component(12).unwrap().parent, 100);
    assert_eq!(scene.enabled_entity_groupings().get(&100), Some(&(0..2)));

    let child = scene.create_entity(Some(100), vec![component(13, 0)], vec![], None, true, None).unwrap();
    assert_ne!(child, NIL_ID);
    assert_eq!(scene.get_entity(100).unwrap().children_ids(), &[child]);
    assert_eq!(scene.get_entity(child).unwrap().parent_entity_id(), 100);
    assert_eq!(scene.get_component(13).unwrap().parent, child);
    assert_eq!(scene.enabled_entity_groupings().get(&child), Some(&(2..3)));
}

#[test]
fn create_entity_with_unknown_parent_changes_nothing() {
    let mut scene = TestScene::new(0);
    let r = scene.create_entity(Some(55), vec![component(1, 0)], vec![], None, true, Some(5));
    assert_eq!(r, Err(SceneError::InvalidEntityId(55)));
    assert!(scene.get_entity(5).is_none());
    assert!(scene.all_components().is_empty());
}

#[test]
fn create_entity_with_unknown_material_keeps_only_the_entity() {
    let mut scene = TestScene::new(0);
    let r = scene.create_entity(None, vec![component(1, 0)], vec![], Some(77), true, Some(5));
    assert_eq!(r, Err(SceneError::InvalidMaterialId(77)));
    assert!(scene.get_entity(5).is_some());
    assert!(scene.all_components().is_empty());
}

#[test]
fn components_are_sorted_stably_by_rendering_order() {
    let mut scene = TestScene::new(0);
    let comps = vec![component(1, 3), component(2, 1), component(3, 2), component(4, 1)];
    scene.create_entity(None, comps, vec![], None, true, Some(9)).unwrap();
    assert_eq!(ids_of(&scene), vec![2, 4, 3, 1]);

    let sorted = sort_by_rendering_order(vec![component(5, 0), component(6, -1), component(7, 0)]);
    let ids: Vec<Id> = sorted.iter().map(|c| c.id).collect();
    assert_eq!(ids, vec![6, 5, 7]);
    let again = sort_by_rendering_order(sorted.clone());
    assert_eq!(again, sorted);
}

#[test]
fn entity_is_enabled_only_with_its_ancestors() {
    let mut scene = TestScene::new(0);
    scene.create_entity(None, vec![], vec![], None, false, Some(1)).unwrap();
    scene.create_entity(Some(1), vec![component(20, 0)], vec![], None, true, Some(2)).unwrap();
    scene.create_entity(None, vec![component(21, 0)], vec![], None, true, Some(3)).unwrap();
    assert!(!scene.is_entity_enabled(1));
    assert!(!scene.is_entity_enabled(2));
    assert!(scene.is_entity_enabled(3));
    assert!(scene.is_entity_enabled(NIL_ID));
    let c20 = scene.get_component(20).unwrap().clone();
    let c21 = scene.get_component(21).unwrap().clone();
    assert!(!scene.is_component_enabled(&c20));
    assert!(scene.is_component_enabled(&c21));
    assert_eq!(scene.enabled_component_indices(), vec![1]);

    EntityToggleAction(1, None).execute(&mut scene);
    assert!(scene.is_entity_enabled(2));
    assert_eq!(scene.enabled_component_indices(), vec![0, 1]);
}

#[test]
fn toggling_an_entity_twice_restores_it() {
    let mut scene = TestScene::new(0);
    scene.create_entity(None, vec![], vec![], None, true, Some(1)).unwrap();
    EntityToggleAction(1, None).execute(&mut scene);
    assert!(!scene.get_entity(1).unwrap().is_enabled());
    EntityToggleAction(1, None).execute(&mut scene);
    assert!(scene.get_entity(1).unwrap().is_enabled());
    EntityToggleAction(1, Some(false)).execute(&mut scene);
    assert!(!scene.get_entity(1).unwrap().is_enabled());
    EntityToggleAction(42, None).execute(&mut scene);
    assert!(scene.get_entity(42).is_none());
}

#[test]
fn toggling_a_component_twice_restores_it() {
    let mut scene = TestScene::new(0);
    scene.create_entity(None, vec![component(5, 0)], vec![], None, true, Some(1)).unwrap();
    ComponentToggleAction(5, None).execute(&mut scene);
    assert!(!scene.get_component(5).unwrap().enabled);
    ComponentToggleAction(5, None).execute(&mut scene);
    assert!(scene.get_component(5).unwrap().enabled);
    ComponentToggleAction(5, Some(false)).execute(&mut scene);
    assert!(!scene.get_component(5).unwrap().enabled);
}

#[test]
fn workload_outputs_are_pushed_and_freed() {
    let mut scene = TestScene::new(0);
    assert_eq!(scene.free_workload_output(8, 0), Err(SceneError::WorkloadRecvError));
    scene.push_workload_output(8, "a".to_string());
    scene.push_workload_output(8, "b".to_string());
    assert_eq!(scene.workload_outputs().get(&8), Some(&vec!["a".to_string(), "b".to_string()]));
    assert_eq!(scene.free_workload_output(8, 1), Ok(()));
    assert_eq!(scene.workload_outputs().get(&8), Some(&vec!["a".to_string()]));
    WorkloadOutputFreeAction(8, 0).execute(&mut scene);
    assert_eq!(scene.workload_outputs().get(&8), Some(&Vec::<String>::new()));
    assert_eq!(scene.free_workload_output(8, 0), Ok(()));
}

#[test]
fn workloads_and_engine_requests_are_queued() {
    let mut scene = TestScene::new(4);
    WorkloadAction(3, 99u64).execute(&mut scene);
    let packets = scene.take_workload_packets();
    assert_eq!(packets.len(), 1);
    assert_eq!(packets[0].scene_index, 4);
    assert_eq!(packets[0].component_id, 3);
    assert_eq!(packets[0].workload, 99);
    assert!(scene.take_workload_packets().is_empty());

    SetCursorVisibilityAction(false).execute(&mut scene);
    SetCursorPositionAction(10, 20).execute(&mut scene);
    scene.send_engine_action("resize".to_string());
    let requests = scene.take_engine_actions();
    assert_eq!(requests.len(), 3);
    assert!(matches!(requests[0], EngineRequest::SetCursorVisibility(false)));
    assert!(matches!(requests[1], EngineRequest::SetCursorPosition { x: 10, y: 20 }));
    assert!(matches!(&requests[2], EngineRequest::Action(a) if a == "resize"));
    assert!(scene.take_engine_actions().is_empty());
}

#[test]
fn active_camera_is_set_and_cleared() {
    let mut scene = TestScene::new(0);
    assert_eq!(scene.active_camera(), None);
    SetActiveCameraAction(12).execute(&mut scene);
    assert_eq!(scene.active_camera(), Some(12));
    DisableCameraAction.execute(&mut scene);
    assert_eq!(scene.active_camera(), None);
    scene.set_active_camera_buffer(Some(5));
    assert_eq!(scene.active_camera_buffer(), Some(&5));
    scene.set_active_camera_bind_group(Some(6));
    assert_eq!(scene.active_camera_bind_group(), Some(&6));
}

#[test]
fn ui_components_are_reported_when_enabled() {
    let mut scene = TestScene::new(0);
    scene.create_entity(None, vec![component(1, 0), component(2, 0)], vec![], None, true, Some(10)).unwrap();
    RegisterUiComponentAction { component_id: 1, text_buffer_action: Some("text".to_string()) }.execute(&mut scene);
    RegisterUiComponentAction::<String> { component_id: 2, text_buffer_action: None }.execute(&mut scene);
    let enabled = scene.enabled_ui_components();
    assert!(enabled.contains(&1) && enabled.contains(&2) && enabled.len() == 2);
    ComponentToggleAction(2, Some(false)).execute(&mut scene);
    let enabled = scene.enabled_ui_components();
    assert!(enabled.contains(&1) && !enabled.contains(&2));
    assert_eq!(scene.take_engine_actions().len(), 1);
}

#[test]
fn materials_are_created_attached_and_updated() {
    let mut scene = TestScene::new(0);
    let params = PipelineParameters::screenspace_shader("effect.wgsl".to_string(), false, 0);
    let mat = scene.create_material(PipelineOptions::Descriptor(params), vec![], vec![1, 2], true, Some(500)).unwrap();
    assert_eq!(mat, 500);
    assert_eq!(scene.pipeline_manager().pipelines_queue().len(), 1);
    let pipeline_id = scene.pipeline_manager().pipelines_queue()[0].0;
    assert_eq!(scene.get_material(500).unwrap().get_immediate_data(), &[1, 2]);

    let unknown = scene.create_material(PipelineOptions::Id(31337), vec![], vec![], true, None);
    assert_eq!(unknown, Err(SceneError::InvalidPipelineId(31337)));

    scene.pipeline_manager_mut().insert_render_pipeline(pipeline_id, PipelineParameters::screenspace_shader("effect.wgsl".to_string(), false, 0), 1);
    let second = scene.create_material(PipelineOptions::Id(pipeline_id), vec![], vec![], true, Some(501)).unwrap();
    assert_eq!(second, 501);
    assert_eq!(scene.get_pipeline_materials(pipeline_id).len(), 2);
    let mut screen = scene.screen_space_materials();
    screen.sort();
    assert_eq!(screen, vec![500, 501]);
    assert_eq!((pipeline_id >> 76) & 0xf, 4);
    assert_eq!(scene.screen_space_passes(), vec![(pipeline_id, 500), (pipeline_id, 501)]);

    scene.create_entity(None, vec![component(1, 0), component(2, 0)], vec![], Some(500), true, Some(40)).unwrap();
    assert!(scene.get_material(500).unwrap().is_entity_attached(40));
    SetEntityActiveMaterialAction(40, 501).execute(&mut scene);
    assert_eq!(scene.get_entity(40).unwrap().active_material(), Some(501));
    scene.update_materials();
    assert_eq!(scene.get_material(500).unwrap().component_ranges(), &[0..2]);
    assert!(scene.get_material(501).unwrap().component_ranges().is_empty());

    let mut to_init = scene.materials_to_initialize();
    to_init.sort();
    assert_eq!(to_init, vec![500, 501]);
    scene.get_material_mut(500).unwrap().set_initialized();
    assert_eq!(scene.materials_to_initialize(), vec![501]);
}

#[test]
fn create_entity_action_makes_a_fresh_entity() {
    let mut scene = TestScene::new(0);
    let action: CreateEntityAction<TestComponent, TestEngine> = CreateEntityAction {
        entity_parent_id: None,
        components: vec![component(3, 0)],
        computes: vec![Compute::builder().shader_path("c.wgsl".to_string()).id(77).build()],
        active_material: None,
        is_enabled: true,
    };
    let id = action.execute(&mut scene).unwrap();
    assert_ne!(id, NIL_ID);
    assert_eq!(scene.get_component(3).unwrap().parent, id);
    assert_eq!(scene.computes().len(), 1);
    assert_eq!(scene.computes()[0].id(), 77);
    assert_eq!(scene.computes()[0].parent_entity_id(), NIL_ID);

    let refused: CreateEntityAction<TestComponent, TestEngine> = CreateEntityAction {
        entity_parent_id: Some(1234),
        components: vec![],
        computes: vec![],
        active_material: None,
        is_enabled: true,
    };
    assert_eq!(refused.execute(&mut scene), Err(SceneError::InvalidEntityId(1234)));
}

#[test]
fn groupings_shift_past_a_removed_component() {
    let mut scene = TestScene::new(0);
    scene.create_entity(None, vec![component(1, 0), component(2, 0)], vec![], None, true, Some(10)).unwrap();
    scene.create_entity(None, vec![component(3, 0)], vec![], None, true, Some(11)).unwrap();
    let g: HashMap<Id, Range<usize>> = scene.groupings_without_component(1);
    assert_eq!(g.get(&10), Some(&(0..1)));
    assert_eq!(g.get(&11), Some(&(1..2)));
    let g0 = scene.groupings_without_component(0);
    assert_eq!(g0.get(&10), Some(&(0..1)));
}

#[test]
fn uninitialized_items_are_listed_in_order() {
    let mut scene = TestScene::new(0);
    let mut done = component(2, 0);
    done.initialized = true;
    scene.create_entity(None, vec![component(1, 0), done, component(3, 0)], vec![], None, true, Some(10)).unwrap();
    assert_eq!(scene.components_to_initialize(), vec![0, 2]);
    scene.attach_compute(Compute::builder().id(5).build());
    assert_eq!(scene.computes_to_initialize(), vec![0]);
    scene.all_components_mut()[0].set_initialized();
    assert_eq!(scene.components_to_initialize(), vec![2]);
}

#[test]
fn material_attachment_bookkeeping() {
    let mut m: Material<TestEngine> = Material::new(1, vec![], vec![], true);
    assert!(!m.is_entity_attached(4));
    m.attach_entity(4);
    assert!(m.is_entity_attached(4));
    m.remove_entity(4);
    assert!(!m.is_entity_attached(4));
    assert!(!m.is_initialized());
    m.set_initialized();
    assert!(m.is_initialized());
    assert_eq!(m.id(), 1);
    m.set_id(2);
    assert_eq!(m.id(), 2);
    m.set_enabled_state(false);
    assert!(!m.is_enabled());
    m.set_immediate_data(&[9, 8]);
    assert_eq!(m.get_immediate_data(), &[9, 8]);
    assert_eq!(m.parent_entity_id(), NIL_ID);
}

#[test]
fn render_plan_lists_drawn_pipelines_by_priority() {
    let mut scene = TestScene::new(0);
    let mut normal = PipelineParameters::from_descriptor("v".to_string(), "f".to_string(), vec![], true, None, None, None, Some(4), Some(2));
    normal.render_priority = 2;
    let mut early = normal.clone();
    early.render_priority = -1;
    early.uses_camera = false;
    early.immediate_size = 0;
    let screen = PipelineParameters::screenspace_shader("fx".to_string(), false, 0);
    scene.pipeline_manager_mut().insert_render_pipeline(1, normal.clone(), 10);
    scene.pipeline_manager_mut().insert_render_pipeline(2, early.clone(), 20);
    scene.pipeline_manager_mut().insert_render_pipeline(3, screen.clone(), 30);
    scene.create_material(PipelineOptions::Id(1), vec![], vec![], true, Some(100)).unwrap();
    scene.create_material(PipelineOptions::Id(1), vec![], vec![], false, Some(101)).unwrap();
    scene.create_material(PipelineOptions::Id(1), vec![], vec![], true, Some(102)).unwrap();
    scene.create_material(PipelineOptions::Id(3), vec![], vec![], true, Some(103)).unwrap();
    let plan = scene.render_plan();
    assert_eq!(plan.len(), 2);
    assert_eq!(plan[0].pipeline_id, 2);
    assert!(!plan[0].uses_camera && !plan[0].sets_immediates);
    assert!(plan[0].materials.is_empty());
    assert_eq!(plan[1].pipeline_id, 1);
    assert!(plan[1].uses_camera && plan[1].sets_immediates);
    assert_eq!(plan[1].materials, vec![100, 102]);
}

#[test]
fn materials_draw_the_enabled_components_of_their_ranges() {
    let mut scene = TestScene::new(0);
    let params = PipelineParameters::screenspace_shader("fx".to_string(), false, 0);
    scene.create_material(PipelineOptions::Descriptor(params), vec![], vec![], true, Some(7)).unwrap();
    let mut off = component(2, 0);
    off.enabled = false;
    scene.create_entity(None, vec![component(1, 0), off, component(3, 0)], vec![], Some(7), true, Some(50)).unwrap();
    scene.create_entity(None, vec![component(4, 0)], vec![], None, true, Some(51)).unwrap();
    scene.update_materials();
    let comps = scene.all_components();
    let m = scene.get_material(7).unwrap();
    assert_eq!(m.components_to_render(&comps), vec![0, 2]);
    assert_eq!(m.components_to_encode(&comps), vec![0, 1, 2]);
    assert_eq!(Material::<TestEngine>::bind_group_slot(true), 1);
    assert_eq!(Material::<TestEngine>::bind_group_slot(false), 0);
}

#[test]
fn redraws_initialize_scenes_and_follow_switches() {
    let mut set: SceneSet<TestComponent, TestEngine> = SceneSet::new();
    assert_eq!(set.plan_redraw(), RedrawPlan { initialize_scene: None, run_frame: false });
    assert_eq!(set.attach_scene(TestScene::new(0)), 0);
    assert_eq!(set.attach_scene(TestScene::new(1)), 1);
    assert_eq!(set.scene_count(), 2);
    // The first redraw initializes scene 0 and notes it as shown.
    assert_eq!(set.plan_redraw(), RedrawPlan { initialize_scene: Some(0), run_frame: false });
    assert!(!set.initialized_scene());
    assert_eq!(set.plan_redraw(), RedrawPlan { initialize_scene: Some(0), run_frame: true });
    assert_eq!(set.plan_redraw(), RedrawPlan { initialize_scene: None, run_frame: true });
    set.set_active_scene(1);
    assert_eq!(set.plan_redraw(), RedrawPlan { initialize_scene: None, run_frame: false });
    assert_eq!(set.plan_redraw(), RedrawPlan { initialize_scene: Some(1), run_frame: true });
    assert_eq!(set.plan_redraw(), RedrawPlan { initialize_scene: None, run_frame: true });
    assert_eq!(set.active_scene(), 1);
    assert_eq!(set.scene_mut(1).scene_index(), 1);
    set.set_initialized_scene(false);
    assert_eq!(set.plan_redraw(), RedrawPlan { initialize_scene: Some(1), run_frame: true });
}

#[test]
fn text_updates_are_sent_to_the_engine() {
    let mut scene = TestScene::new(0);
    UpdateTextComponentAction { component_id: 4, text_buffer_update: "new text".to_string() }.execute(&mut scene);
    let requests = scene.take_engine_actions();
    assert_eq!(requests.len(), 1);
    assert!(matches!(&requests[0], EngineRequest::Action(a) if a == "new text"));
}

#[test]
fn walks_up_the_ancestors_are_bounded() {
    let mut scene = TestScene::new(0);
    scene.create_entity(None, vec![], vec![], None, false, Some(1)).unwrap();
    scene.create_entity(Some(1), vec![component(20, 0)], vec![], None, true, Some(2)).unwrap();
    scene.create_entity(Some(2), vec![component(21, 0)], vec![], None, true, Some(3)).unwrap();
    assert_eq!(scene.entity_count(), 3);
    assert!(scene.walk_ends_within(NIL_ID, 0));
    assert!(!scene.walk_ends_within(2, 1));
    assert!(scene.walk_ends_within(2, 2));
    assert!(scene.walk_ends_within(1, 1));
    assert!(!scene.walk_ends_within(99, 5));
    assert!(!scene.walks_end_within(2));
    assert!(scene.walks_end_within(3));
    assert!(scene.walks_end_within(scene.entity_count() + 1));
}

#[test]
fn mouse_buttons_toggle_and_frames_count() {
    let mut input = FrameInput::new();
    assert_eq!(input.frames_elapsed(), 0);
    assert!(!input.is_mouse_button_down(0));
    input.toggle_mouse_button(0);
    assert!(input.is_mouse_button_down(0));
    assert!(!input.is_mouse_button_down(1));
    input.toggle_mouse_button(0);
    assert!(!input.is_mouse_button_down(0));
    input.frame_finished();
    input.frame_finished();
    assert_eq!(input.frames_elapsed(), 2);
}

#[test]
fn camera_steps_follow_escape_and_the_active_camera() {
    assert_eq!(camera_step(None, 5, true, false), (false, CameraStep::Idle));
    assert_eq!(camera_step(Some(5), 5, true, false), (true, CameraStep::SetCursorVisibility(true)));
    assert_eq!(camera_step(Some(6), 5, true, true), (false, CameraStep::SetCursorVisibility(false)));
    assert_eq!(camera_step(Some(6), 5, false, false), (false, CameraStep::Idle));
    assert_eq!(camera_step(Some(5), 5, false, true), (true, CameraStep::Idle));
    assert_eq!(camera_step(Some(5), 5, false, false), (false, CameraStep::Follow));
}

#[test]
fn generated_ids_are_version_four() {
    let mut scene = TestScene::new(0);
    let eid = scene.create_entity(None, vec![], vec![], None, true, None).unwrap();
    assert_eq!((eid >> 76) & 0xf, 4);
    assert_eq!((eid >> 62) & 0x3, 2);
    let pid = v4::pipeline::PipelineManager::<TestEngine>::resolve_pipeline_id(None);
    assert_eq!((pid >> 76) & 0xf, 4);
    assert_eq!(v4::pipeline::PipelineManager::<TestEngine>::resolve_pipeline_id(Some(9)), 9);
}
