use fyrox_graphics_wgpu::program::{
    resource_slots_fit_of, SamplerKind, ShaderKind, ShaderProperty, ShaderPropertyKind, ShaderResourceDefinition, ShaderResourceKind,
};
use fyrox_graphics_wgpu::shader::{
    bind_group_layout_entries, compilation_failure, layout_slots_fit_of, compile_glsl, compile_shader, validate_resources, CompileStep,
    LayoutEntry, LayoutEntryKind, ShaderError, TextureSampleType, TextureViewDimension,
};
use fyrox_graphics_wgpu::shader_lint::check_srgb_conversions;

const SPIRV_MAGIC: u32 = 0x0723_0203;

fn texture(name: &str, kind: SamplerKind, binding: usize) -> ShaderResourceDefinition {
    ShaderResourceDefinition { name: name.to_string(), kind: ShaderResourceKind::Texture { kind }, binding }
}

fn group(name: &str, fields: Vec<ShaderProperty>, binding: usize) -> ShaderResourceDefinition {
    ShaderResourceDefinition { name: name.to_string(), kind: ShaderResourceKind::PropertyGroup(fields), binding }
}

#[test]
fn distinct_resources_are_accepted() {
    let rs = vec![
        texture("a", SamplerKind::Sampler2D, 0),
        texture("b", SamplerKind::Sampler2D, 1),
        // A group may share a slot and a name with a texture: they live in different ranges.
        group("a", vec![], 0),
    ];
    assert_eq!(validate_resources(&rs), Ok(()));
    assert_eq!(validate_resources(&[]), Ok(()));
}

#[test]
fn shared_binding_is_reported_first() {
    let rs = vec![texture("a", SamplerKind::Sampler2D, 3), texture("b", SamplerKind::Sampler2D, 3)];
    assert_eq!(
        validate_resources(&rs),
        Err(ShaderError::Custom("Resource a and b same binding 3".to_string()))
    );
}

#[test]
fn duplicate_name_is_reported() {
    let rs = vec![group("p", vec![], 1), group("p", vec![], 2)];
    assert_eq!(validate_resources(&rs), Err(ShaderError::Custom("Duplicate resource name p".to_string())));
}

#[test]
fn first_clash_in_row_order_wins() {
    let rs = vec![
        texture("x", SamplerKind::Sampler2D, 0),
        texture("y", SamplerKind::Sampler2D, 5),
        texture("x", SamplerKind::Sampler2D, 5),
    ];
    // Row of entry 0 meets entry 2 (same name) before row 1 meets entry 2 (same slot).
    assert_eq!(validate_resources(&rs), Err(ShaderError::Custom("Duplicate resource name x".to_string())));
}

#[test]
fn layout_entries_for_textures_and_groups() {
    let rs = vec![
        texture("albedo", SamplerKind::Sampler2D, 0),
        texture("ids", SamplerKind::USamplerCube, 4),
        group("props", vec![], 1),
    ];
    assert_eq!(
        bind_group_layout_entries(&rs),
        vec![
            LayoutEntry {
                binding: 0,
                kind: LayoutEntryKind::Texture {
                    sample_type: TextureSampleType::Float { filterable: true },
                    view_dimension: TextureViewDimension::D2,
                },
            },
            LayoutEntry { binding: 100, kind: LayoutEntryKind::FilteringSampler },
            LayoutEntry {
                binding: 4,
                kind: LayoutEntryKind::Texture { sample_type: TextureSampleType::Uint, view_dimension: TextureViewDimension::Cube },
            },
            LayoutEntry { binding: 104, kind: LayoutEntryKind::FilteringSampler },
            LayoutEntry { binding: 201, kind: LayoutEntryKind::UniformBuffer },
        ]
    );
}

#[test]
fn compile_simple_vertex_shader() {
    let words = compile_glsl("simple", ShaderKind::Vertex, "#version 450\nvoid main() { gl_Position = vec4(0.0, 0.0, 0.0, 1.0); }\n")
        .unwrap();
    assert!(words.len() > 5);
    assert_eq!(words[0], SPIRV_MAGIC);
}

#[test]
fn compile_reports_parse_failure_with_shader_name() {
    match compile_glsl("broken", ShaderKind::Fragment, "#version 450\nvoid main() { this is not glsl }\n") {
        Err(ShaderError::CompilationFailed { shader_name, error_message }) => {
            assert_eq!(shader_name, "broken");
            assert!(error_message.starts_with("Failed to parse GLSL for broken:\n"));
            assert!(error_message.len() > "Failed to parse GLSL for broken:\n".len());
        }
        other => panic!("unexpected result {other:?}"),
    }
}

#[test]
fn compilation_failure_messages() {
    assert_eq!(
        compilation_failure(CompileStep::Validate, "s", "bad type"),
        ShaderError::CompilationFailed {
            shader_name: "s".to_string(),
            error_message: "Naga validation failed for s: bad type".to_string()
        }
    );
    assert_eq!(
        compilation_failure(CompileStep::Emit, "s", "no"),
        ShaderError::CompilationFailed {
            shader_name: "s".to_string(),
            error_message: "SPIR-V generation failed for s: no".to_string()
        }
    );
    assert_eq!(
        compilation_failure(CompileStep::Parse, "s", "e"),
        ShaderError::CompilationFailed { shader_name: "s".to_string(), error_message: "Failed to parse GLSL for s:\ne".to_string() }
    );
}

#[test]
fn compile_shader_with_texture_and_properties() {
    let rs = vec![
        texture("diffuseTexture", SamplerKind::Sampler2D, 0),
        group(
            "properties",
            vec![
                ShaderProperty { name: "tint".to_string(), kind: ShaderPropertyKind::Vector4 },
                ShaderProperty { name: "enabled".to_string(), kind: ShaderPropertyKind::Bool },
            ],
            1,
        ),
    ];
    let fs = "layout(location = 0) in vec2 uv;\n\
              layout(location = 0) out vec4 color;\n\
              void main() {\n\
                  color = texture(diffuseTexture, uv) * properties.tint;\n\
                  if (properties.enabled) { color = vec4(1.0); }\n\
              }\n";
    let words = compile_shader("test_FS", ShaderKind::Fragment, fs, &rs, "float sharedHelper(float x) { return x; }\n").unwrap();
    assert_eq!(words[0], SPIRV_MAGIC);
}

#[test]
fn compile_shader_checks_resources_before_compiling() {
    let rs = vec![texture("a", SamplerKind::Sampler2D, 0), texture("a", SamplerKind::Sampler2D, 1)];
    assert_eq!(
        compile_shader("x", ShaderKind::Vertex, "not even glsl", &rs, ""),
        Err(ShaderError::Custom("Duplicate resource name a".to_string()))
    );
}

#[test]
fn lint_warns_for_each_banned_helper() {
    let warnings = check_srgb_conversions("vec3 c = S_SRGBToLinear(x); vec3 d = S_LinearToSRGB(c);", "lit");
    assert_eq!(
        warnings,
        vec![
            "shader_lint: shader `lit` contains banned sRGB helper `S_SRGBToLinear` \u{2014} sRGB conversions must not appear in shader source. Use sRGB-tagged texture formats for auto-decode, or CPU-side conversion before upload.".to_string(),
            "shader_lint: shader `lit` contains banned sRGB helper `S_LinearToSRGB` \u{2014} sRGB conversions must not appear in shader source. Use sRGB-tagged texture formats for auto-decode, or CPU-side conversion before upload.".to_string(),
        ]
    );
}

#[test]
fn lint_is_silent_for_clean_source() {
    assert!(check_srgb_conversions("void main() {}", "clean").is_empty());
    let only_second = check_srgb_conversions("S_LinearToSRGB", "s");
    assert_eq!(only_second.len(), 1);
    assert!(only_second[0].contains("`S_LinearToSRGB`"));
}

#[test]
fn compile_shader_refuses_banned_srgb_helpers() {
    let fs = "layout(location = 0) out vec4 color;\nvoid main() { color = vec4(S_LinearToSRGB(vec3(1.0)), 1.0); }\n";
    assert_eq!(
        compile_shader("ui_FS", ShaderKind::Fragment, fs, &[], ""),
        Err(ShaderError::CompilationFailed {
            shader_name: "ui_FS".to_string(),
            error_message: "shader_lint: shader `ui_FS` contains banned sRGB helper `S_LinearToSRGB` \u{2014} sRGB conversions must not appear in shader source. Use sRGB-tagged texture formats for auto-decode, or CPU-side conversion before upload.".to_string(),
        })
    );
}

#[test]
fn slot_checks() {
    let ok = vec![texture("t", SamplerKind::Sampler2D, 5), group("g", vec![], usize::MAX)];
    // An empty group gets no declaration, so only its layout slot overflows.
    assert!(resource_slots_fit_of(&ok));
    assert!(!layout_slots_fit_of(&ok));
    let bad = vec![texture("t", SamplerKind::Sampler2D, usize::MAX - 99)];
    assert!(!resource_slots_fit_of(&bad));
    assert!(!layout_slots_fit_of(&bad));
    assert!(layout_slots_fit_of(&[texture("t", SamplerKind::Sampler2D, usize::MAX - 100)]));
}
