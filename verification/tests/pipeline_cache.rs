use fyrox_graphics_wgpu::framebuffer::{CompareFunc, CullFace, DepthFormatSource, DepthState, ElementKind, PipelineKey, PrimitiveTopology};
use fyrox_graphics_wgpu::pipeline::{CompareFunction, Face};
use fyrox_graphics_wgpu::pipeline_cache::{draw_pipeline_plan, keys_equal, DrawPipelinePlan, FrontFace, PipelineCache};
use fyrox_graphics_wgpu::server::PolygonFillMode;
use std::sync::Arc;

fn make_pipeline(device: &wgpu::Device) -> wgpu::RenderPipeline {
    let module = device.create_shader_module(wgpu::ShaderModuleDescriptor {
        label: None,
        source: wgpu::ShaderSource::Wgsl(
            "@vertex fn vs() -> @builtin(position) vec4<f32> { return vec4<f32>(0.0, 0.0, 0.0, 1.0); }\n\
             @fragment fn fs() -> @location(0) vec4<f32> { return vec4<f32>(1.0, 1.0, 1.0, 1.0); }"
                .into(),
        ),
    });
    let layout = device.create_pipeline_layout(&wgpu::PipelineLayoutDescriptor::default());
    device.create_render_pipeline(&wgpu::RenderPipelineDescriptor {
        label: None,
        layout: Some(&layout),
        vertex: wgpu::VertexState { module: &module, entry_point: Some("vs"), compilation_options: Default::default(), buffers: &[] },
        primitive: Default::default(),
        depth_stencil: None,
        multisample: Default::default(),
        fragment: Some(wgpu::FragmentState {
            module: &module,
            entry_point: Some("fs"),
            compilation_options: Default::default(),
            targets: &[Some(wgpu::TextureFormat::Rgba8Unorm.into())],
        }),
        multiview_mask: None,
        cache: None,
    })
}

fn key(fill: PolygonFillMode, depth: Option<CompareFunc>) -> PipelineKey {
    PipelineKey::new(1, wgpu::TextureFormat::Rgba8Unorm, None, 1, None, depth, false, None, fill, ElementKind::Triangle)
}

#[test]
fn pipeline_keys_compare_every_field() {
    assert!(keys_equal(&key(PolygonFillMode::Fill, None), &key(PolygonFillMode::Fill, None)));
    assert!(!keys_equal(&key(PolygonFillMode::Fill, None), &key(PolygonFillMode::Line, None)));
    assert!(!keys_equal(&key(PolygonFillMode::Fill, None), &key(PolygonFillMode::Fill, Some(CompareFunc::Less))));
    let other_format =
        PipelineKey::new(1, wgpu::TextureFormat::Bgra8Unorm, None, 1, None, None, false, None, PolygonFillMode::Fill, ElementKind::Triangle);
    assert!(!keys_equal(&key(PolygonFillMode::Fill, None), &other_format));
}

#[test]
fn pipeline_cache_get_insert_clear() {
    let (device, _queue) = wgpu::Device::noop(&wgpu::DeviceDescriptor::default());
    let mut cache = PipelineCache::default();
    assert!(cache.is_empty());
    let fill = key(PolygonFillMode::Fill, None);
    let wire = key(PolygonFillMode::Line, None);
    assert!(cache.get(&fill).is_none());
    let a = cache.insert(fill, make_pipeline(&device));
    assert!(Arc::ptr_eq(&cache.get(&fill).unwrap(), &a));
    assert!(cache.get(&wire).is_none());
    let again = cache.insert(fill, make_pipeline(&device));
    assert!(Arc::ptr_eq(&again, &a));
    assert_eq!(cache.len(), 1);
    let b = cache.insert(wire, make_pipeline(&device));
    assert!(!Arc::ptr_eq(&a, &b));
    assert_eq!(cache.len(), 2);
    cache.clear();
    assert!(cache.is_empty());
    assert!(cache.get(&fill).is_none());
}

#[test]
fn draw_pipeline_plan_follows_the_key() {
    let k = PipelineKey::new(
        7,
        wgpu::TextureFormat::Rgba8Unorm,
        Some(wgpu::TextureFormat::Depth32Float),
        4,
        None,
        Some(CompareFunc::Less),
        true,
        Some(CullFace::Back),
        PolygonFillMode::Line,
        ElementKind::Line,
    );
    assert_eq!(
        draw_pipeline_plan(&k),
        DrawPipelinePlan {
            blend: None,
            write_all_colors: true,
            front_face: FrontFace::Ccw,
            cull: Some(Face::Back),
            fill_mode: PolygonFillMode::Line,
            topology: PrimitiveTopology::LineList,
            depth: Some(DepthState { format: DepthFormatSource::Attachment, write_enabled: true, compare: CompareFunction::Less }),
            sample_count: 4,
        }
    );
    let plain = key(PolygonFillMode::Fill, None);
    let plan = draw_pipeline_plan(&plain);
    assert_eq!(plan.cull, None);
    assert_eq!(plan.depth, None);
    assert_eq!(plan.topology, PrimitiveTopology::TriangleList);
    let front = PipelineKey::new(1, wgpu::TextureFormat::Rgba8Unorm, None, 1, None, None, false, Some(CullFace::Front), PolygonFillMode::Fill, ElementKind::Point);
    assert_eq!(draw_pipeline_plan(&front).cull, Some(Face::Front));
    assert_eq!(draw_pipeline_plan(&front).topology, PrimitiveTopology::PointList);
}
