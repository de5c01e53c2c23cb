use fyrox_graphics_wgpu::bind_group_cache::{BufferDataUsage, ResourceBinding};
use fyrox_graphics_wgpu::framebuffer::{
    bind_group_drops_entries, bindings_plannable, blend_factor_to_wgpu, blend_mode_to_wgpu, draw_arithmetic_fits_of, compare_func_to_wgpu, cull_face_to_wgpu, depth_state, element_topology,
    index_per_element, plan_bind_group, plan_draw, readback_row_pitch, BindGroupEntryPlan, BlendMode, CompareFunc,
    CullFace, DepthFormatSource, DepthState, DrawError, DrawPlan, ElementKind, ElementRange, EntryResource,
    FyroxBlendFactor, PipelineKey, PrimitiveTopology, BlendParameters,
};
use fyrox_graphics_wgpu::server::PolygonFillMode;
use fyrox_graphics_wgpu::pipeline::{BlendFactor, BlendOperation, CompareFunction, Face};

#[test]
fn compare_functions_map_to_namesakes() {
    assert_eq!(compare_func_to_wgpu(CompareFunc::Never), CompareFunction::Never);
    assert_eq!(compare_func_to_wgpu(CompareFunc::LessOrEqual), CompareFunction::LessEqual);
    assert_eq!(compare_func_to_wgpu(CompareFunc::GreaterOrEqual), CompareFunction::GreaterEqual);
    assert_eq!(compare_func_to_wgpu(CompareFunc::NotEqual), CompareFunction::NotEqual);
    assert_eq!(compare_func_to_wgpu(CompareFunc::Always), CompareFunction::Always);
}

#[test]
fn blend_modes_and_factors_map() {
    assert_eq!(blend_mode_to_wgpu(BlendMode::ReverseSubtract), BlendOperation::ReverseSubtract);
    assert_eq!(blend_mode_to_wgpu(BlendMode::Max), BlendOperation::Max);
    assert_eq!(blend_factor_to_wgpu(FyroxBlendFactor::SrcColor), BlendFactor::Src);
    assert_eq!(blend_factor_to_wgpu(FyroxBlendFactor::ConstantAlpha), BlendFactor::Constant);
    assert_eq!(blend_factor_to_wgpu(FyroxBlendFactor::OneMinusConstantColor), BlendFactor::OneMinusConstant);
    assert_eq!(blend_factor_to_wgpu(FyroxBlendFactor::SrcAlphaSaturate), BlendFactor::SrcAlphaSaturated);
    assert_eq!(blend_factor_to_wgpu(FyroxBlendFactor::Src1Alpha), BlendFactor::SrcAlpha);
    assert_eq!(blend_factor_to_wgpu(FyroxBlendFactor::OneMinusSrc1Color), BlendFactor::OneMinusSrc);
}

#[test]
fn cull_faces_and_topologies() {
    assert_eq!(cull_face_to_wgpu(Some(CullFace::Back)), Some(Face::Back));
    assert_eq!(cull_face_to_wgpu(Some(CullFace::Front)), Some(Face::Front));
    assert_eq!(cull_face_to_wgpu(None), None);
    assert_eq!(index_per_element(ElementKind::Triangle), 3);
    assert_eq!(index_per_element(ElementKind::Line), 2);
    assert_eq!(index_per_element(ElementKind::Point), 1);
    assert_eq!(element_topology(ElementKind::Line), PrimitiveTopology::LineList);
    assert_eq!(element_topology(ElementKind::Point), PrimitiveTopology::PointList);
}

#[test]
fn pipeline_key_encodes_cull_face() {
    let blend = BlendParameters {
        sfactor: FyroxBlendFactor::SrcAlpha,
        dfactor: FyroxBlendFactor::OneMinusSrcAlpha,
        alpha_sfactor: FyroxBlendFactor::One,
        alpha_dfactor: FyroxBlendFactor::Zero,
        rgb: BlendMode::Add,
        alpha: BlendMode::Add,
    };
    let fmt = wgpu::TextureFormat::Rgba8Unorm;
    let k = PipelineKey::new(7, fmt, None, 4, Some(blend), None, true, Some(CullFace::Back), PolygonFillMode::Fill, ElementKind::Triangle);
    assert_eq!(k.cull, 2);
    assert_eq!(k.program_ptr, 7);
    assert_eq!(k.sample_count, 4);
    assert_eq!(k.blend, Some(blend));
    assert_eq!(k.topology, PrimitiveTopology::TriangleList);
    assert!(k.depth_test.is_none() && k.depth_write);
    let front = PipelineKey::new(7, fmt, None, 4, Some(blend), None, true, Some(CullFace::Front), PolygonFillMode::Fill, ElementKind::Triangle);
    let none = PipelineKey::new(7, fmt, None, 4, Some(blend), None, true, None, PolygonFillMode::Fill, ElementKind::Triangle);
    let wire = PipelineKey::new(7, fmt, None, 4, Some(blend), None, true, Some(CullFace::Back), PolygonFillMode::Line, ElementKind::Triangle);
    assert_eq!(front.cull, 1);
    assert_eq!(none.cull, 0);
    assert_ne!(k, front);
    assert_ne!(k, wire);
}

#[test]
fn depth_state_cases() {
    assert_eq!(
        depth_state(Some(CompareFunc::Less), true, true),
        Some(DepthState { format: DepthFormatSource::Attachment, write_enabled: true, compare: CompareFunction::Less })
    );
    assert_eq!(
        depth_state(None, true, false),
        Some(DepthState { format: DepthFormatSource::Depth32Float, write_enabled: true, compare: CompareFunction::Always })
    );
    assert_eq!(
        depth_state(None, false, true),
        Some(DepthState { format: DepthFormatSource::Attachment, write_enabled: false, compare: CompareFunction::Always })
    );
    assert_eq!(depth_state(None, false, false), None);
}

#[test]
fn draw_full_triangles() {
    assert_eq!(
        plan_draw(ElementRange::Full, 10, ElementKind::Triangle, 2),
        Ok(DrawPlan::Indexed { first_index: 0, end_index: 30, base_vertex: 0, instance_count: 2, triangles: 20 })
    );
}

#[test]
fn draw_specific_lines() {
    assert_eq!(
        plan_draw(ElementRange::Specific { offset: 3, count: 4 }, 10, ElementKind::Line, 1),
        Ok(DrawPlan::Indexed { first_index: 6, end_index: 14, base_vertex: 0, instance_count: 1, triangles: 4 })
    );
}

#[test]
fn draw_nothing_for_empty_range() {
    assert_eq!(plan_draw(ElementRange::Full, 0, ElementKind::Triangle, 1), Ok(DrawPlan::Nothing));
    assert_eq!(plan_draw(ElementRange::Specific { offset: 5, count: 0 }, 10, ElementKind::Point, 1), Ok(DrawPlan::Nothing));
}

#[test]
fn draw_range_past_end_is_an_error() {
    assert_eq!(
        plan_draw(ElementRange::Specific { offset: 8, count: 3 }, 10, ElementKind::Triangle, 1),
        Err(DrawError::InvalidElementRange { start: 8, end: 11, total: 10 })
    );
}

#[test]
fn bind_group_entries_for_texture_and_buffers() {
    let tex = ResourceBinding::Texture { texture_ptr: 11, sampler_ptr: 12, binding: 3 };
    let whole = ResourceBinding::Buffer { buffer_ptr: 21, binding: 0, data_usage: BufferDataUsage::UseEverything };
    let seg = ResourceBinding::Buffer {
        buffer_ptr: 22,
        binding: 1,
        data_usage: BufferDataUsage::UseSegment { offset: 256, size: 64 },
    };
    let plan = plan_bind_group(&[vec![tex, whole], vec![seg]]).unwrap();
    assert_eq!(
        plan,
        vec![
            BindGroupEntryPlan { binding: 3, resource: EntryResource::TextureView { texture_ptr: 11 } },
            BindGroupEntryPlan { binding: 103, resource: EntryResource::Sampler { sampler_ptr: 12 } },
            BindGroupEntryPlan { binding: 200, resource: EntryResource::Buffer { buffer_ptr: 21, offset: 0, size: None } },
            BindGroupEntryPlan { binding: 201, resource: EntryResource::Buffer { buffer_ptr: 22, offset: 256, size: Some(64) } },
        ]
    );
}

#[test]
fn no_bindings_give_no_bind_group() {
    assert_eq!(plan_bind_group(&[]), None);
    assert_eq!(plan_bind_group(&[vec![], vec![]]), None);
}

#[test]
fn readback_row_pitch_at_least_256() {
    assert_eq!(readback_row_pitch(10, 4), 256);
    assert_eq!(readback_row_pitch(64, 4), 256);
    assert_eq!(readback_row_pitch(100, 4), 400);
    assert_eq!(readback_row_pitch(0, 4), 256);
}

#[test]
fn plannable_bindings() {
    let tex = ResourceBinding::Texture { texture_ptr: 1, sampler_ptr: 2, binding: 0 };
    let empty_seg = ResourceBinding::Buffer {
        buffer_ptr: 3,
        binding: 0,
        data_usage: BufferDataUsage::UseSegment { offset: 0, size: 0 },
    };
    let huge = ResourceBinding::Texture { texture_ptr: 1, sampler_ptr: 2, binding: usize::MAX - 50 };
    assert!(bindings_plannable(&[vec![tex], vec![]]));
    assert!(!bindings_plannable(&[vec![tex], vec![empty_seg]]));
    assert!(!bindings_plannable(&[vec![huge]]));
}

#[test]
fn draw_arithmetic_checks() {
    assert!(draw_arithmetic_fits_of(ElementRange::Full, 10, ElementKind::Triangle, 1));
    assert!(!draw_arithmetic_fits_of(ElementRange::Specific { offset: usize::MAX, count: 1 }, 10, ElementKind::Point, 1));
    assert!(!draw_arithmetic_fits_of(ElementRange::Full, usize::MAX / 2, ElementKind::Triangle, 1));
    // A range past the end is reported as an error, whatever its size.
    assert!(draw_arithmetic_fits_of(ElementRange::Specific { offset: 5, count: usize::MAX / 2 }, 10, ElementKind::Triangle, 1));
}

#[test]
fn draw_offset_selects_indices_of_later_elements() {
    // Element 1 of a triangle buffer is indices 3..6, with vertex ids unshifted.
    assert_eq!(
        plan_draw(ElementRange::Specific { offset: 1, count: 1 }, 2, ElementKind::Triangle, 1),
        Ok(DrawPlan::Indexed { first_index: 3, end_index: 6, base_vertex: 0, instance_count: 1, triangles: 1 })
    );
}

#[test]
fn duplicate_bindings_keep_the_first_entry() {
    let material = ResourceBinding::Buffer { buffer_ptr: 31, binding: 0, data_usage: BufferDataUsage::UseEverything };
    let instance = ResourceBinding::Buffer { buffer_ptr: 32, binding: 0, data_usage: BufferDataUsage::UseEverything };
    let tex = ResourceBinding::Texture { texture_ptr: 1, sampler_ptr: 2, binding: 0 };
    assert_eq!(
        plan_bind_group(&[vec![material, tex], vec![instance]]).unwrap(),
        vec![
            BindGroupEntryPlan { binding: 200, resource: EntryResource::Buffer { buffer_ptr: 31, offset: 0, size: None } },
            BindGroupEntryPlan { binding: 0, resource: EntryResource::TextureView { texture_ptr: 1 } },
            BindGroupEntryPlan { binding: 100, resource: EntryResource::Sampler { sampler_ptr: 2 } },
        ]
    );
}

#[test]
fn dropping_duplicate_bindings_is_detected() {
    let material = ResourceBinding::Buffer { buffer_ptr: 31, binding: 0, data_usage: BufferDataUsage::UseEverything };
    let instance = ResourceBinding::Buffer { buffer_ptr: 32, binding: 0, data_usage: BufferDataUsage::UseEverything };
    let other = ResourceBinding::Buffer { buffer_ptr: 33, binding: 1, data_usage: BufferDataUsage::UseEverything };
    let tex = ResourceBinding::Texture { texture_ptr: 1, sampler_ptr: 2, binding: 0 };
    assert!(bind_group_drops_entries(&[vec![material, tex], vec![instance]]));
    assert!(!bind_group_drops_entries(&[vec![material, tex], vec![other]]));
    assert!(!bind_group_drops_entries(&[]));
}
