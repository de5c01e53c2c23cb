use fyrox_graphics_wgpu::pipeline::{
    BlendComponent, BlendFactor, BlendOperation, BlendState, CompareFunction, Face, PipelineCatalog, VariantKey,
};
use std::sync::Arc;

fn noop_pipeline(device: &wgpu::Device) -> wgpu::RenderPipeline {
    let module = device.create_shader_module(wgpu::ShaderModuleDescriptor {
        label: None,
        source: wgpu::ShaderSource::Wgsl(
            "@vertex fn vs() -> @builtin(position) vec4<f32> { return vec4<f32>(0.0, 0.0, 0.0, 1.0); }\n\
             @fragment fn fs() -> @location(0) vec4<f32> { return vec4<f32>(1.0, 1.0, 1.0, 1.0); }"
                .into(),
        ),
    });
    let layout = device.create_pipeline_layout(&wgpu::PipelineLayoutDescriptor::default());
    device.create_render_pipeline(&wgpu::RenderPipelineDescriptor {
        label: Some("test"),
        layout: Some(&layout),
        vertex: wgpu::VertexState {
            module: &module,
            entry_point: Some("vs"),
            compilation_options: Default::default(),
            buffers: &[],
        },
        primitive: Default::default(),
        depth_stencil: None,
        multisample: Default::default(),
        fragment: Some(wgpu::FragmentState {
            module: &module,
            entry_point: Some("fs"),
            compilation_options: Default::default(),
            targets: &[Some(wgpu::TextureFormat::Rgba8Unorm.into())],
        }),
        multiview_mask: None,
        cache: None,
    })
}

#[test]
fn variant_key_properties_gbuffer_opaque() {
    let v = VariantKey::GBufferOpaque;
    assert!(v.blend_state().is_none());
    assert!(v.depth_write());
    assert_eq!(v.cull_mode(), Some(Face::Back));
    assert!(v.color_write());
}

#[test]
fn variant_key_properties_forward_alpha_blend() {
    let v = VariantKey::ForwardAlphaBlend;
    assert!(v.blend_state().is_some());
    assert!(!v.depth_write());
    assert_eq!(v.cull_mode(), Some(Face::Back));
    assert!(v.color_write());
}

#[test]
fn variant_key_properties_shadow_depth() {
    let v = VariantKey::ShadowDepth;
    assert!(v.blend_state().is_none());
    assert!(v.depth_write());
    assert_eq!(v.cull_mode(), Some(Face::Back));
    assert!(!v.color_write());
}

#[test]
fn variant_key_properties_shadow_depth_culled_front() {
    let v = VariantKey::ShadowDepthCulledFront;
    assert_eq!(v.cull_mode(), Some(Face::Front));
}

#[test]
fn pipeline_catalog_default_is_empty() {
    let catalog: PipelineCatalog = Default::default();
    assert!(catalog.get(VariantKey::ForwardOpaque).is_none());
}

#[test]
fn alpha_blend_variants_use_standard_alpha_blending() {
    let expected = BlendState {
        color: BlendComponent {
            src_factor: BlendFactor::SrcAlpha,
            dst_factor: BlendFactor::OneMinusSrcAlpha,
            operation: BlendOperation::Add,
        },
        alpha: BlendComponent {
            src_factor: BlendFactor::One,
            dst_factor: BlendFactor::OneMinusSrcAlpha,
            operation: BlendOperation::Add,
        },
    };
    assert_eq!(VariantKey::ForwardAlphaBlend.blend_state(), Some(expected));
    assert_eq!(VariantKey::ForwardMaskedAlphaBlend.blend_state(), Some(expected));
    assert!(VariantKey::ForwardMaskedAlphaBlend.depth_write());
}

#[test]
fn all_variants_in_declaration_order_with_labels() {
    let all = VariantKey::all();
    let labels = [
        "GBufferOpaque",
        "GBufferMasked",
        "ForwardOpaque",
        "ForwardAlphaBlend",
        "ForwardMaskedAlphaBlend",
        "ShadowDepth",
        "ShadowDepthCulledFront",
    ];
    assert_eq!(all.len(), 7);
    for (i, v) in all.iter().enumerate() {
        assert_eq!(v.index(), i);
        assert_eq!(v.label(), labels[i]);
        assert_eq!(v.depth_compare(), CompareFunction::Less);
        // A variant that writes no color writes depth and does not blend.
        if !v.color_write() {
            assert!(v.depth_write());
            assert!(v.blend_state().is_none());
        }
    }
}

#[test]
fn catalog_insert_get_and_variants() {
    let (device, _queue) = wgpu::Device::noop(&wgpu::DeviceDescriptor::default());
    let mut catalog = PipelineCatalog::default();
    assert!(catalog.variants().is_empty());
    let shadow = Arc::new(noop_pipeline(&device));
    let returned = catalog.insert(VariantKey::ShadowDepth, shadow.clone());
    assert!(Arc::ptr_eq(&returned, &shadow));
    let opaque = Arc::new(noop_pipeline(&device));
    catalog.insert(VariantKey::GBufferOpaque, opaque.clone());
    assert!(Arc::ptr_eq(&catalog.get(VariantKey::ShadowDepth).unwrap(), &shadow));
    assert!(Arc::ptr_eq(&catalog.get(VariantKey::GBufferOpaque).unwrap(), &opaque));
    assert!(catalog.get(VariantKey::ForwardOpaque).is_none());
    assert_eq!(catalog.variants(), vec![VariantKey::GBufferOpaque, VariantKey::ShadowDepth]);
    let replacement = Arc::new(noop_pipeline(&device));
    catalog.insert(VariantKey::ShadowDepth, replacement.clone());
    assert!(Arc::ptr_eq(&catalog.get(VariantKey::ShadowDepth).unwrap(), &replacement));
    assert!(Arc::ptr_eq(&catalog.get(VariantKey::GBufferOpaque).unwrap(), &opaque));
}
