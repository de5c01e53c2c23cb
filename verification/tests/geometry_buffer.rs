use fyrox_graphics_wgpu::geometry_buffer::{
    attribute_format, vertex_buffer_layout, vertex_layout_fits, AttributeDefinition, AttributeKind, VertexAttribute, VertexFormat,
    VertexStepMode,
};

#[test]
fn attribute_sizes() {
    assert_eq!(AttributeKind::Float.size(), 4);
    assert_eq!(AttributeKind::UnsignedByte.size(), 1);
    assert_eq!(AttributeKind::UnsignedShort.size(), 2);
    assert_eq!(AttributeKind::UnsignedInt.size(), 4);
}

#[test]
fn attribute_formats() {
    assert_eq!(attribute_format(AttributeKind::Float, 3), VertexFormat::Float32x3);
    assert_eq!(attribute_format(AttributeKind::UnsignedByte, 4), VertexFormat::Uint8x4);
    assert_eq!(attribute_format(AttributeKind::UnsignedShort, 2), VertexFormat::Uint16x2);
    assert_eq!(attribute_format(AttributeKind::UnsignedInt, 1), VertexFormat::Uint32);
    // Combinations without a wgpu format fall back to Float32x4.
    assert_eq!(attribute_format(AttributeKind::UnsignedByte, 3), VertexFormat::Float32x4);
    assert_eq!(attribute_format(AttributeKind::Float, 5), VertexFormat::Float32x4);
}

#[test]
fn packed_vertex_layout() {
    let attrs = [
        AttributeDefinition { location: 0, kind: AttributeKind::Float, component_count: 3, normalized: false, divisor: 0 },
        AttributeDefinition { location: 1, kind: AttributeKind::Float, component_count: 2, normalized: false, divisor: 0 },
        AttributeDefinition { location: 2, kind: AttributeKind::UnsignedByte, component_count: 4, normalized: true, divisor: 0 },
    ];
    let layout = vertex_buffer_layout(&attrs, 24);
    assert_eq!(layout.array_stride, 24);
    assert_eq!(layout.step_mode, VertexStepMode::Vertex);
    assert_eq!(
        layout.attributes,
        vec![
            VertexAttribute { format: VertexFormat::Float32x3, offset: 0, shader_location: 0 },
            VertexAttribute { format: VertexFormat::Float32x2, offset: 12, shader_location: 1 },
            VertexAttribute { format: VertexFormat::Uint8x4, offset: 20, shader_location: 2 },
        ]
    );
}

#[test]
fn divisor_makes_instance_layout() {
    let attrs = [
        AttributeDefinition { location: 5, kind: AttributeKind::Float, component_count: 4, normalized: false, divisor: 0 },
        AttributeDefinition { location: 6, kind: AttributeKind::UnsignedInt, component_count: 1, normalized: false, divisor: 1 },
    ];
    let layout = vertex_buffer_layout(&attrs, 20);
    assert_eq!(layout.step_mode, VertexStepMode::Instance);
    assert_eq!(layout.attributes[1], VertexAttribute { format: VertexFormat::Uint32, offset: 16, shader_location: 6 });
}

#[test]
fn empty_layout() {
    let layout = vertex_buffer_layout(&[], 0);
    assert_eq!(layout.array_stride, 0);
    assert_eq!(layout.step_mode, VertexStepMode::Vertex);
    assert!(layout.attributes.is_empty());
}

#[test]
fn layout_fit_checks() {
    let ok = [AttributeDefinition { location: 0, kind: AttributeKind::Float, component_count: 4, normalized: false, divisor: 0 }];
    assert!(vertex_layout_fits(&ok));
    assert!(vertex_layout_fits(&[]));
    let huge = [AttributeDefinition { location: 0, kind: AttributeKind::Float, component_count: usize::MAX / 2, normalized: false, divisor: 0 }];
    assert!(!vertex_layout_fits(&huge));
}
