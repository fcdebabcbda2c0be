use v4::binding::{BindingLayout, BufferBindingType, TextureViewDimension, SHADER_STAGE_COMPUTE, SHADER_STAGE_FRAGMENT, SHADER_STAGE_VERTEX};
use v4::component::ComponentDetails;
use v4::compute::{Compute, ComputeBuilder};
use v4::descriptors::{
    attachment_kind_of, builder_name, check_fields_without_ident, check_material_pipeline,
    check_modular_struct, field_default, pipeline_kind_of, rendering_order_argument,
    required_field_trait_name, separate_required_and_optional_fields, str_equals, to_pascal_case,
    typed_builder_type_names, validate_scene_attributes, AttachmentKind, BuilderField,
    FieldAttribute, FieldDefault, MaterialPipelineError, ModularStructError, PipelineKind,
    SceneAttributeError,
};
use v4::engine_types::EngineTypes;
use v4::font::FontFamily;
use v4::mesh::{MeshComponent, MeshDrawCall, MESH_RENDERING_ORDER};
use v4::material::{
    buffer_reallocation_needed, Material, MaterialError, ShaderAttachment, ShaderAttachmentError,
    ShaderBufferAttachment, ShaderTextureAttachment, TextureUpdate, BUFFER_USAGE_STORAGE,
    BUFFER_USAGE_UNIFORM,
};
use v4::pipeline::{
    FrontFace, GeometryDetails, PipelineManager, PipelineParameters, PolygonMode,
    PrimitiveTopology, SpecialBindGroupLayout, VertexBufferLayout, VertexFormat, VertexStepMode,
};
use v4::texture::{StorageTextureAccess, TextureBundle, TextureProperties};

#[derive(Debug)]
struct TestEngine;

impl EngineTypes for TestEngine {
    type Buffer = u32;
    type BindGroup = u32;
    type BindGroupLayout = u32;
    type RenderPipeline = u32;
    type ComputePipeline = u32;
    type TextureView = u32;
    type TextureFormat = u32;
    type WorkloadOutput = String;
    type Workload = u64;
    type EngineAction = String;
}

fn texture(filtered: bool, sampled: bool, cubemap: bool, visibility: u32) -> ShaderAttachment<TestEngine> {
    let mut props = TextureProperties::with_format(17u32);
    props.is_filtered = filtered;
    props.is_sampled = sampled;
    props.is_cubemap = cubemap;
    ShaderAttachment::Texture(ShaderTextureAttachment { texture_bundle: TextureBundle::new(1u32, props), visibility })
}

fn buffer(visibility: u32) -> ShaderAttachment<TestEngine> {
    ShaderAttachment::Buffer(ShaderBufferAttachment { buffer: 2, visibility, buffer_type: BufferBindingType::Uniform })
}

fn field(name: &str, attribute: FieldAttribute) -> BuilderField {
    BuilderField { name: name.to_string(), attribute }
}

fn strings(names: &[&str]) -> Vec<String> {
    names.iter().map(|n| n.to_string()).collect()
}

#[test]
fn pascal_case_of_snake_case_names() {
    assert_eq!(to_pascal_case("field_name"), "FieldName");
    assert_eq!(to_pascal_case("a_b_c"), "ABC");
    assert_eq!(to_pascal_case("name"), "Name");
    assert_eq!(to_pascal_case(""), "");
    assert_eq!(to_pascal_case("_x"), "_X");
    assert_eq!(to_pascal_case("already_Big"), "AlreadyBig");
    assert_eq!(to_pascal_case("élan_vital"), "ÉlanVital");
}

#[test]
fn builder_names() {
    assert_eq!(required_field_trait_name("mesh_data"), "HasMeshData");
    assert_eq!(builder_name("CameraComponent"), "CameraComponentBuilder");
    let (set, unset) = typed_builder_type_names("CameraComponentBuilder");
    assert_eq!(set, "CameraComponentBuilderSet");
    assert_eq!(unset, "CameraComponentBuilderUnset");
    assert!(str_equals("abc", "abc"));
    assert!(!str_equals("abc", "abd"));
    assert!(!str_equals("abc", "ab"));
}

#[test]
fn fields_split_into_required_and_optional() {
    let fields = vec![
        field("a", FieldAttribute::NoAttribute),
        field("b", FieldAttribute::Default { expression_parses: true }),
        field("c", FieldAttribute::NoAttribute),
        field("d", FieldAttribute::Default { expression_parses: false }),
    ];
    let (required, optional) = separate_required_and_optional_fields(&fields);
    let r: Vec<&str> = required.iter().map(|f| f.name.as_str()).collect();
    let o: Vec<&str> = optional.iter().map(|f| f.name.as_str()).collect();
    assert_eq!(r, vec!["a", "c"]);
    assert_eq!(o, vec!["b", "d"]);
    assert_eq!(field_default(&fields[0]), FieldDefault::Unset);
    assert_eq!(field_default(&fields[1]), FieldDefault::Expression);
    assert_eq!(field_default(&fields[3]), FieldDefault::DefaultValue);
}

#[test]
fn rendering_order_is_read_from_the_first_named_argument() {
    let args = vec![
        (None, 1),
        (Some("other".to_string()), 2),
        (Some("rendering_order".to_string()), 3),
        (Some("rendering_order".to_string()), 4),
    ];
    assert_eq!(rendering_order_argument(&args), Some(&3));
    let none: Vec<(Option<String>, i32)> = vec![(Some("x".to_string()), 1)];
    assert_eq!(rendering_order_argument(&none), None);
}

#[test]
fn modular_struct_checks() {
    let mandatory = strings(&["vertex_shader", "fragment_shader"]);
    let optional = strings(&["uses_camera"]);
    assert_eq!(
        check_modular_struct(None, "Pipeline", &strings(&[]), &mandatory, &optional),
        Err(ModularStructError::MissingIdent)
    );
    assert_eq!(
        check_modular_struct(Some("Pipe"), "Pipeline", &strings(&[]), &mandatory, &optional),
        Err(ModularStructError::UnexpectedIdent("Pipeline".to_string()))
    );
    assert_eq!(
        check_modular_struct(Some("Pipeline"), "Pipeline", &strings(&["vertex_shader", "colour", "size"]), &mandatory, &optional),
        Err(ModularStructError::NoSuchField("colour".to_string()))
    );
    assert_eq!(
        check_modular_struct(Some("Pipeline"), "Pipeline", &strings(&["uses_camera"]), &mandatory, &optional),
        Err(ModularStructError::MissingFields(strings(&["vertex_shader", "fragment_shader"])))
    );
    assert_eq!(
        check_modular_struct(Some("Pipeline"), "Pipeline", &strings(&["fragment_shader", "vertex_shader"]), &mandatory, &optional),
        Ok(())
    );
    assert_eq!(check_fields_without_ident(&strings(&["uses_camera", "x"]), &mandatory, &optional), Err("x".to_string()));
    assert_eq!(check_fields_without_ident(&strings(&["uses_camera"]), &mandatory, &optional), Ok(()));
}

#[test]
fn scene_attributes_are_validated() {
    let attrs = vec![
        Some("active_camera".to_string()),
        Some("screen_space_materials".to_string()),
        Some("active_camera".to_string()),
    ];
    let choice = validate_scene_attributes(&attrs).unwrap();
    assert_eq!(choice.active_camera, Some(2));
    assert_eq!(choice.screen_space_materials, Some(1));
    assert_eq!(
        validate_scene_attributes(&[Some("active_camera".to_string()), Some("fog".to_string())]),
        Err(SceneAttributeError::InvalidAttribute("fog".to_string()))
    );
    assert_eq!(validate_scene_attributes(&[None]), Err(SceneAttributeError::UnnamedAttribute(0)));
    let empty = validate_scene_attributes(&[]).unwrap();
    assert_eq!(empty.active_camera, None);
}

#[test]
fn pipeline_and_attachment_kinds() {
    assert_eq!(pipeline_kind_of("ScreenSpacePipeline"), Some(PipelineKind::ScreenSpace));
    assert_eq!(pipeline_kind_of("Pipeline"), Some(PipelineKind::Normal));
    assert_eq!(pipeline_kind_of("ID"), Some(PipelineKind::Id));
    assert_eq!(pipeline_kind_of("Other"), None);
    assert_eq!(check_material_pipeline(PipelineKind::ScreenSpace, false), Err(MaterialPipelineError::ScreenSpaceForStandardMaterial));
    assert_eq!(check_material_pipeline(PipelineKind::Normal, true), Err(MaterialPipelineError::NormalForScreenSpaceMaterial));
    assert_eq!(check_material_pipeline(PipelineKind::Id, true), Ok(()));
    assert_eq!(check_material_pipeline(PipelineKind::Normal, false), Ok(()));
    assert_eq!(attachment_kind_of("Buffer"), Some(AttachmentKind::Buffer));
    assert_eq!(attachment_kind_of("Texture"), Some(AttachmentKind::Texture));
    assert_eq!(attachment_kind_of("Sampler"), None);
}

#[test]
fn pipeline_parameters_from_a_descriptor() {
    let p = PipelineParameters::from_descriptor("v.wgsl".to_string(), "f.wgsl".to_string(), vec![], true, None, Some(true), None, None, Some(3));
    assert_eq!(p.vertex_shader, "v.wgsl");
    assert!(!p.spirv_vertex_shader);
    assert!(p.spirv_fragment_shader);
    assert_eq!(p.geometry_details, GeometryDetails::default_details());
    assert_eq!(p.immediate_size, 0);
    assert_eq!(p.render_priority, 3);
    assert!(!p.is_screenspace);
    let q = PipelineParameters::from_descriptor("v".to_string(), "f".to_string(), vec![], false, None, None, None, Some(16), None);
    assert_eq!(q.render_priority, i32::MAX);
    assert_eq!(q.immediate_size, 16);
}

#[test]
fn default_geometry_and_screenspace_parameters() {
    let g = GeometryDetails::default_details();
    assert_eq!(g.topology, PrimitiveTopology::TriangleList);
    assert_eq!(g.strip_index_format, None);
    assert_eq!(g.front_face, FrontFace::Ccw);
    assert_eq!(g.cull_mode, None);
    assert_eq!(g.polygon_mode, PolygonMode::Fill);
    let p = PipelineParameters::screenspace_shader("fx.wgsl".to_string(), true, 8);
    assert_eq!(p.vertex_shader, "../default_shaders/screenspace_vertex.wgsl");
    assert_eq!(p.fragment_shader, "fx.wgsl");
    assert!(p.spirv_fragment_shader && !p.spirv_vertex_shader && p.uses_camera && p.is_screenspace);
    assert_eq!(p.vertex_layouts.len(), 1);
    assert_eq!(p.vertex_layouts[0].array_stride, 20);
    assert_eq!(p.vertex_layouts[0].step_mode, VertexStepMode::Vertex);
    assert_eq!(p.vertex_layouts[0].attributes[0].format, VertexFormat::Float32x3);
    assert_eq!(p.vertex_layouts[0].attributes[1].offset, 12);
    assert_eq!(p.render_priority, i32::MAX);
    let copy = p.duplicate();
    assert_eq!(copy, p);
}

#[test]
fn pipeline_manager_sorts_by_priority() {
    let mut m: PipelineManager<TestEngine> = PipelineManager::new();
    let mut a = PipelineParameters::screenspace_shader("a".to_string(), false, 0);
    a.render_priority = 5;
    let mut b = a.clone();
    b.render_priority = -2;
    let mut c = a.clone();
    c.render_priority = 1;
    m.insert_render_pipeline(10, a, 100);
    m.insert_render_pipeline(20, b, 200);
    m.insert_render_pipeline(30, c, 300);
    let order: Vec<u128> = m.sorted_pipelines().iter().map(|(id, _, _)| *id).collect();
    assert_eq!(order, vec![20, 30, 10]);
    assert_eq!(m.get_pipeline(30).unwrap().1, 300);
    assert!(m.get_pipeline(40).is_none());
    let mut ids = m.pipeline_ids();
    ids.sort();
    assert_eq!(ids, vec![10, 20, 30]);
    assert_eq!(PipelineManager::<TestEngine>::resolve_pipeline_id(Some(7)), 7);
    assert_ne!(PipelineManager::<TestEngine>::resolve_pipeline_id(None), 0);
    let d = PipelineParameters::screenspace_shader("d".to_string(), false, 0);
    let layouts = PipelineManager::<TestEngine>::special_bind_group_layouts(&d);
    assert_eq!(layouts.len(), 2);
    assert!(matches!(layouts[0], SpecialBindGroupLayout::Camera));
    assert!(matches!(layouts[1], SpecialBindGroupLayout::ScreenSpace));
    assert!(!PipelineManager::<TestEngine>::uses_depth_stencil(&d));
    m.add_pipeline_to_creation_queue(50, d, Some(4));
    assert_eq!(m.pipelines_queue().len(), 1);
    m.clear_pipelines_queue();
    assert!(m.pipelines_queue().is_empty());
}

#[test]
fn buffer_and_texture_update_decisions() {
    assert!(!buffer_reallocation_needed(16, 16));
    assert!(buffer_reallocation_needed(17, 16));
    assert_eq!(ShaderBufferAttachment::<TestEngine>::usages_for(BufferBindingType::Uniform, 8), BUFFER_USAGE_UNIFORM | 8);
    assert_eq!(ShaderBufferAttachment::<TestEngine>::usages_for(BufferBindingType::Storage { read_only: true }, 0), BUFFER_USAGE_STORAGE);
    assert_eq!(
        ShaderTextureAttachment::<TestEngine>::plan_texture_update(64, 4, 4, 4, 1, None),
        Ok(TextureUpdate::WriteInPlace)
    );
    assert_eq!(
        ShaderTextureAttachment::<TestEngine>::plan_texture_update(65, 4, 4, 4, 1, None),
        Err(ShaderAttachmentError::NoNewTextureSize)
    );
    assert_eq!(
        ShaderTextureAttachment::<TestEngine>::plan_texture_update(65, 4, 4, 4, 1, Some((8, 8, 1))),
        Ok(TextureUpdate::Recreate { width: 8, height: 8, depth_or_array_layers: 1 })
    );
    // A cubemap of six 4x4 faces of 4-byte texels holds 384 bytes.
    assert_eq!(
        ShaderTextureAttachment::<TestEngine>::plan_texture_update(384, 4, 4, 4, 6, None),
        Ok(TextureUpdate::WriteInPlace)
    );
    assert_eq!(
        ShaderTextureAttachment::<TestEngine>::plan_texture_update(385, 4, 4, 4, 6, None),
        Err(ShaderAttachmentError::NoNewTextureSize)
    );
    // The capacity is computed without overflow for the largest sizes.
    assert_eq!(
        ShaderTextureAttachment::<TestEngine>::plan_texture_update(usize::MAX, u32::MAX, u32::MAX, u32::MAX, u32::MAX, None),
        Ok(TextureUpdate::WriteInPlace)
    );
}

#[test]
fn attachment_updates_are_checked() {
    let m: Material<TestEngine> = Material::new(3, vec![texture(true, true, false, SHADER_STAGE_FRAGMENT), buffer(SHADER_STAGE_VERTEX)], vec![], true);
    // Not initialized yet: updates of the right kind are refused.
    assert_eq!(m.check_attachment_update(0, true), Err(MaterialError::PipelineNotInitialized(3)));
    assert_eq!(m.check_attachment_update(1, false), Err(MaterialError::PipelineNotInitialized(3)));
    // A kind mismatch reports the kind of the targeted attachment.
    assert_eq!(m.check_attachment_update(1, true), Err(MaterialError::InvalidAttachmentUpdate { target: 1, target_is_texture: false }));
    assert_eq!(m.check_attachment_update(0, false), Err(MaterialError::InvalidAttachmentUpdate { target: 0, target_is_texture: true }));
    assert_eq!(m.check_attachment_update(2, false), Err(MaterialError::AttachmentNotFound(2)));
    assert_eq!(m.rebind_after_update(false), Err(MaterialError::PipelineNotInitialized(3)));
    assert_eq!(m.rebind_after_update(true), Err(MaterialError::PipelineNotInitialized(3)));
    let mut m2 = m;
    m2.set_bind_group_and_layout(1, 2);
    assert_eq!(m2.check_attachment_update(0, true), Ok(()));
    assert_eq!(m2.check_attachment_update(1, false), Ok(()));
    assert_eq!(m2.rebind_after_update(false), Ok(false));
    assert_eq!(m2.rebind_after_update(true), Ok(true));
    assert_eq!(m2.bind_group_layout(), Some(&1));
    assert_eq!(m2.bind_group(), Some(&2));
}

#[test]
fn material_layout_entries_with_samplers() {
    let m: Material<TestEngine> = Material::new(
        3,
        vec![
            texture(true, true, false, SHADER_STAGE_FRAGMENT),
            buffer(SHADER_STAGE_VERTEX),
            texture(false, true, true, SHADER_STAGE_VERTEX),
        ],
        vec![],
        true,
    );
    let needed = m.samplers_needed();
    assert_eq!(needed, [(true, SHADER_STAGE_FRAGMENT | SHADER_STAGE_VERTEX), (true, SHADER_STAGE_FRAGMENT | SHADER_STAGE_VERTEX)]);
    let entries = m.bind_group_layout_entries();
    assert_eq!(entries.len(), 5);
    assert!(matches!(entries[0].layout, BindingLayout::Texture { filterable: true, view_dimension: TextureViewDimension::D2, multisampled: false }));
    assert!(matches!(entries[1].layout, BindingLayout::Buffer { ty: BufferBindingType::Uniform, has_dynamic_offset: false }));
    assert!(matches!(entries[2].layout, BindingLayout::Texture { filterable: false, view_dimension: TextureViewDimension::Cube, .. }));
    assert!(matches!(entries[3].layout, BindingLayout::Sampler { filtering: false }));
    assert_eq!(entries[3].binding, 3);
    assert!(matches!(entries[4].layout, BindingLayout::Sampler { filtering: true }));
    assert_eq!(entries[4].binding, 4);
    let plain: Material<TestEngine> = Material::new(4, vec![buffer(SHADER_STAGE_VERTEX)], vec![], true);
    assert_eq!(plain.bind_group_layout_entries().len(), 1);
}

#[test]
fn compute_builder_and_layout() {
    let mut props = TextureProperties::with_format(5u32);
    props.storage_texture = Some(StorageTextureAccess::WriteOnly);
    let storage = ShaderAttachment::<TestEngine>::Texture(ShaderTextureAttachment { texture_bundle: TextureBundle::new(1, props), visibility: SHADER_STAGE_FRAGMENT });
    let compute: Compute<TestEngine> = ComputeBuilder::default_builder()
        .attachments(vec![storage, buffer(SHADER_STAGE_VERTEX)])
        .shader_path("sim.wgsl".to_string())
        .workgroup_counts((4, 2, 1))
        .iterate_count(3)
        .id(66)
        .enabled(false)
        .build();
    assert_eq!(compute.shader_path(), "sim.wgsl");
    assert!(!compute.is_spirv());
    assert_eq!(compute.iterate_count(), 3);
    assert_eq!(compute.id(), 66);
    assert!(!compute.is_enabled());
    assert!(compute.dispatch_state().is_none());
    let entries = compute.bind_group_layout_entries();
    assert_eq!(entries.len(), 2);
    assert_eq!(entries[0].visibility, SHADER_STAGE_COMPUTE);
    assert!(matches!(entries[0].layout, BindingLayout::StorageTexture { access: StorageTextureAccess::WriteOnly, format: 5, view_dimension: TextureViewDimension::D2 }));
    let mut c = compute;
    c.set_gpu_objects(1, 2, 3);
    let (pipeline, group, counts) = c.dispatch_state().unwrap();
    assert_eq!((*pipeline, *group, counts), (3, 2, (4, 2, 1)));
    let unnamed: Compute<TestEngine> = ComputeBuilder::default_builder().build();
    assert!(unnamed.is_enabled());
    assert_eq!(unnamed.iterate_count(), 1);
}

#[test]
fn texture_properties_defaults() {
    let p = TextureProperties::with_format(9u32);
    assert_eq!(p.depth_or_array_layers(), 1);
    let mut cube = p;
    cube.is_cubemap = true;
    assert_eq!(cube.depth_or_array_layers(), 6);
    let mut bundle = TextureBundle::new(3u32, cube);
    assert_eq!(*bundle.view(), 3);
    *bundle.view_mut() = 4;
    assert_eq!(*bundle.view(), 4);
    assert!(bundle.properties().is_cubemap);
    let family = FontFamily::Name("Inter".to_string());
    assert_eq!(family.clone(), FontFamily::Name("Inter".to_string()));
    assert_ne!(FontFamily::Serif, FontFamily::Monospace);
}

#[test]
fn mesh_draw_calls_follow_enabled_models() {
    let mut mesh: MeshComponent<[u8; 8], TestEngine> =
        MeshComponent::from_models(vec![vec![[0u8; 8]; 6], vec![[1u8; 8]; 3]], vec![], true);
    assert_eq!(mesh.enabled_models(), &[(0, None), (1, None)]);
    assert!(!mesh.is_initialized());
    assert_eq!(mesh.rendering_order(), MESH_RENDERING_ORDER);
    assert!(!mesh.uses_index_buffers());
    mesh.set_enabled_models(vec![(0, Some(2..5)), (1, None)]);
    let calls = mesh.draw_calls(8);
    assert_eq!(calls, vec![
        MeshDrawCall { model: 0, vertex_bytes: Some(16..40), indexed: false, count: 3 },
        MeshDrawCall { model: 1, vertex_bytes: None, indexed: false, count: 3 },
    ]);
    mesh.set_buffers(vec![1, 2], None);
    assert!(mesh.is_initialized());
    assert_eq!(mesh.vertex_buffers(), Some(&vec![1, 2]));

    let mut indexed: MeshComponent<[u8; 4], TestEngine> =
        MeshComponent::from_models(vec![vec![[0u8; 4]; 4]], vec![vec![0, 1, 2, 2, 3, 0]], true);
    assert!(indexed.uses_index_buffers());
    indexed.set_buffers(vec![5], Some(vec![6]));
    assert_eq!(indexed.draw_calls(4), vec![MeshDrawCall { model: 0, vertex_bytes: None, indexed: true, count: 6 }]);
    assert_eq!(indexed.model_indices(0), &[0, 1, 2, 2, 3, 0]);
    assert_eq!(indexed.model_vertices(0).len(), 4);
}

#[test]
fn vertex_formats_and_transform_layout() {
    assert_eq!(VertexFormat::Uint8.size(), 1);
    assert_eq!(VertexFormat::Float16.size(), 2);
    assert_eq!(VertexFormat::Unorm10_10_10_2.size(), 4);
    assert_eq!(VertexFormat::Float32x3.size(), 12);
    assert_eq!(VertexFormat::Float64x4.size(), 32);
    let layout = VertexBufferLayout::transform_instance_layout(5);
    assert_eq!(layout.array_stride, 64);
    assert_eq!(layout.step_mode, VertexStepMode::Instance);
    let locations: Vec<(u64, u32)> = layout.attributes.iter().map(|a| (a.offset, a.shader_location)).collect();
    assert_eq!(locations, vec![(0, 5), (16, 6), (32, 7), (48, 8)]);
}

#[test]
fn defaults_match_the_named_defaults() {
    assert_eq!(GeometryDetails::default(), GeometryDetails::default_details());
    let compute: Compute<TestEngine> = ComputeBuilder::default().id(3).build();
    assert_eq!(compute.iterate_count(), 1);
    assert!(compute.is_enabled());
    assert_eq!(compute.shader_path(), "");
}

#[test]
fn built_compute_reports_what_it_was_built_with() {
    let c: Compute<TestEngine> = Compute::builder().id(7).iterate_count(3).enabled(false).workgroup_counts((8, 1, 1)).build();
    assert_eq!(c.id(), 7);
    assert_eq!(c.iterate_count(), 3);
    assert!(!c.is_enabled());
    assert!(!c.is_initialized());
    assert_eq!(c.parent_entity_id(), 0);
    assert!(c.attachments().is_empty());
    assert_eq!(c.rendering_order(), 0);
    let d: Compute<TestEngine> = Compute::builder().build();
    assert_eq!(d.iterate_count(), 1);
    assert!(d.is_enabled());
    assert!(d.id() <= u64::MAX as u128);
}

#[test]
fn pascal_case_splits_at_underscores() {
    assert_eq!(to_pascal_case("foo_bar"), "FooBar");
    assert_eq!(to_pascal_case("foo_bar"), to_pascal_case("foo") + &to_pascal_case("bar"));
    assert_eq!(to_pascal_case("mesh_component_x"), to_pascal_case("mesh") + &to_pascal_case("component_x"));
    assert_eq!(to_pascal_case("a_"), to_pascal_case("a") + &to_pascal_case(""));
}

#[test]
fn pascal_case_is_idempotent_without_doubled_underscores() {
    for name in ["my_field", "_private_name", "already", "x1_y2", "Upper_case"] {
        let once = to_pascal_case(name);
        assert_eq!(to_pascal_case(&once), once);
    }
    assert_eq!(to_pascal_case("a__b"), "A_B");
    assert_eq!(to_pascal_case("A_B"), "AB");
}

#[test]
fn mesh_drawability_is_checked() {
    let mut mesh: MeshComponent<[u8; 8], TestEngine> =
        MeshComponent::from_models(vec![vec![[0u8; 8]; 6], vec![[1u8; 8]; 3]], vec![], true);
    assert!(mesh.is_drawable(8));
    assert!(mesh.id() <= u64::MAX as u128);
    mesh.set_enabled_models(vec![(2, None)]);
    assert!(!mesh.is_drawable(8));
    mesh.set_enabled_models(vec![(0, Some(5..2))]);
    assert!(!mesh.is_drawable(8));
    mesh.set_enabled_models(vec![(0, Some(0..u64::MAX))]);
    assert!(!mesh.is_drawable(8));
    assert!(mesh.is_drawable(1));
    let mut indexed: MeshComponent<[u8; 4], TestEngine> =
        MeshComponent::from_models(vec![vec![[0u8; 4]; 4], vec![[0u8; 4]; 4]], vec![vec![0, 1, 2]], true);
    assert!(indexed.is_drawable(4));
    indexed.set_buffers(vec![5, 6], Some(vec![7]));
    assert!(!indexed.is_drawable(4));
}
