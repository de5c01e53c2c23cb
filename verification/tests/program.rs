use fyrox_graphics_wgpu::program::{
    count_lines, definitions_rewrite_cleanly_of, extract_call_args, generate_resource_declarations, prepare_source, preprocess_shader,
    replace_texture_arg_in_calls, rewrite_sampler_function_definitions, rewrite_sampler_usages,
    sampler_constructor_name, sampler_kind_from_type_name, vulkan_texture_type, SamplerKind, ShaderProperty,
    ShaderPropertyKind, ShaderResourceDefinition, ShaderResourceKind,
};

fn texture(name: &str, kind: SamplerKind, binding: usize) -> ShaderResourceDefinition {
    ShaderResourceDefinition { name: name.to_string(), kind: ShaderResourceKind::Texture { kind }, binding }
}

fn group(name: &str, fields: Vec<ShaderProperty>, binding: usize) -> ShaderResourceDefinition {
    ShaderResourceDefinition { name: name.to_string(), kind: ShaderResourceKind::PropertyGroup(fields), binding }
}

fn prop(name: &str, kind: ShaderPropertyKind) -> ShaderProperty {
    ShaderProperty { name: name.to_string(), kind }
}

#[test]
fn test_rewrite_sampler_function_definitions() {
    let mut source = r#"float CsmGetShadow(in sampler2D shadowSampler, in vec3 fragmentPosition, in mat4 lightViewProjMatrix)
{
    float invSize = 1.0 / float(textureSize(shadowSampler, 0).x);
    return S_SpotShadowFactor(properties.shadowsEnabled, properties.softShadows,
        properties.shadowBias, fragmentPosition, lightViewProjMatrix, invSize, shadowSampler);
}"#.to_string();

    rewrite_sampler_function_definitions(&mut source);

    // Parameter list should be split
    assert!(source.contains("in texture2D shadowSampler_tex, in sampler shadowSampler_samp"));
    // textureSize should use _tex
    assert!(source.contains("textureSize(shadowSampler_tex, 0)"));
    // S_SpotShadowFactor call should have split args
    assert!(source.contains("shadowSampler_tex, shadowSampler_samp"));
    // The combined sampler type should be gone
    assert!(!source.contains("sampler2D shadowSampler"));
}

#[test]
fn test_rewrite_sampler_function_definitions_no_sampler() {
    let mut source = r#"float plainFunc(float a, float b) {
    return a + b;
}"#.to_string();

    let before = source.clone();
    rewrite_sampler_function_definitions(&mut source);
    assert_eq!(source, before);
}

#[test]
fn test_rewrite_sampler_usages_global_resource() {
    let mut source = r#"vec3 c = texture(materialTexture, texCoord).rgb;
float d = textureSize(materialTexture, 0).x;"#.to_string();

    rewrite_sampler_usages(&mut source, "materialTexture", SamplerKind::Sampler2D);

    assert!(source.contains("texture(sampler2D(materialTexture_tex, materialTexture_samp),"));
    assert!(source.contains("textureSize(materialTexture_tex,"));
}

#[test]
fn rewrite_function_definition_exact_text() {
    let mut source = "vec4 f(in usamplerCube s, float x) { return texture(s, vec3(x)); }".to_string();
    rewrite_sampler_function_definitions(&mut source);
    assert_eq!(
        source,
        // The untouched parameter keeps its leading space, and the text between
        // the parameter list and the body is not kept.
        "vec4 f(in utextureCube s_tex, in sampler s_samp,  float x){ return texture(usamplerCube(s_tex, s_samp), vec3(x)); }"
    );
}

#[test]
fn sampler_usage_patterns_with_spaces() {
    let mut source = "a = textureLod( m, uv, 0.0); b = texelFetch(m , p, 0); c = textureSize(m ,0);".to_string();
    rewrite_sampler_usages(&mut source, "m", SamplerKind::Sampler3D);
    assert_eq!(
        source,
        "a = textureLod(sampler3D(m_tex, m_samp), uv, 0.0); b = texelFetch(sampler3D(m_tex, m_samp), p, 0); c = textureSize(m_tex,0);"
    );
}

#[test]
fn count_lines_counts_newlines() {
    assert_eq!(count_lines(""), 0);
    assert_eq!(count_lines("a"), 0);
    assert_eq!(count_lines("a\nb\n"), 2);
    assert_eq!(count_lines("\n\n\n"), 3);
}

#[test]
fn extract_call_args_balances_parentheses() {
    assert_eq!(extract_call_args("f(a, g(b), c) + 1", 1), Some(("a, g(b), c".to_string(), 13)));
    assert_eq!(extract_call_args("f()", 1), Some((String::new(), 3)));
    assert_eq!(extract_call_args("f(a, (b", 1), None);
    assert_eq!(extract_call_args("f(a)", 0), None);
    assert_eq!(extract_call_args("f(a)", 10), None);
}

#[test]
fn extract_call_args_counts_bytes() {
    assert_eq!(extract_call_args("\u{e9}(a)", 2), Some(("a".to_string(), 5)));
    assert_eq!(extract_call_args("\u{e9}(a)", 1), None);
    assert_eq!(extract_call_args("(\u{e9}, x)", 0), Some(("\u{e9}, x".to_string(), 7)));
}

#[test]
fn texture_arg_as_last_argument() {
    let mut s = "x = S_PointShadow(a, b, shadowMap);".to_string();
    replace_texture_arg_in_calls(&mut s, "S_PointShadow", "shadowMap");
    assert_eq!(s, "x = S_PointShadow(a, b, shadowMap_tex, shadowMap_samp);");
}

#[test]
fn texture_arg_doubled() {
    let mut s = "CsmGetShadow(csm, csm, p)".to_string();
    replace_texture_arg_in_calls(&mut s, "CsmGetShadow", "csm");
    assert_eq!(s, "CsmGetShadow(csm_tex,csm_samp, p)");
}

#[test]
fn texture_arg_first() {
    let mut s = "m = S_FetchMatrix(matrices, idx);".to_string();
    replace_texture_arg_in_calls(&mut s, "S_FetchMatrix", "matrices");
    assert_eq!(s, "m = S_FetchMatrix(matrices_tex,matrices_samp, idx);");
}

#[test]
fn texture_arg_in_every_call() {
    let mut s = "S_FetchMatrix(t, 1) + S_FetchMatrix(t, 2)".to_string();
    replace_texture_arg_in_calls(&mut s, "S_FetchMatrix", "t");
    assert_eq!(s, "S_FetchMatrix(t_tex,t_samp, 1) + S_FetchMatrix(t_tex,t_samp, 2)");
}

#[test]
fn texture_arg_suffix_of_other_name_is_kept() {
    let mut s = "S_PointShadow(a, bigmap)".to_string();
    replace_texture_arg_in_calls(&mut s, "S_PointShadow", "map");
    assert_eq!(s, "S_PointShadow(a, bigmap)");
}

#[test]
fn sampler_names() {
    assert_eq!(vulkan_texture_type(SamplerKind::Sampler2D), "texture2D");
    assert_eq!(vulkan_texture_type(SamplerKind::USamplerCube), "utextureCube");
    assert_eq!(sampler_constructor_name(SamplerKind::SamplerCube), "samplerCube");
    assert_eq!(sampler_constructor_name(SamplerKind::USampler1D), "usampler1D");
    assert_eq!(sampler_kind_from_type_name("usampler3D"), Some(SamplerKind::USampler3D));
    assert_eq!(sampler_kind_from_type_name("sampler2D"), Some(SamplerKind::Sampler2D));
    assert_eq!(sampler_kind_from_type_name("sampler2DShadow"), None);
    let all = [
        SamplerKind::Sampler1D,
        SamplerKind::Sampler2D,
        SamplerKind::Sampler3D,
        SamplerKind::SamplerCube,
        SamplerKind::USampler1D,
        SamplerKind::USampler2D,
        SamplerKind::USampler3D,
        SamplerKind::USamplerCube,
    ];
    for k in all {
        assert_eq!(sampler_kind_from_type_name(sampler_constructor_name(k)), Some(k));
    }
}

#[test]
fn resource_declarations_and_line_offset() {
    let resources = vec![
        texture("diffuse", SamplerKind::Sampler2D, 0),
        group("properties", vec![prop("a", ShaderPropertyKind::Float), prop("b", ShaderPropertyKind::Bool)], 1),
        group("empty", vec![], 2),
    ];
    let mut source = "void main() {}\n".to_string();
    let mut line_offset: isize = 0;
    generate_resource_declarations(&resources, &mut source, &mut line_offset);
    assert_eq!(
        source,
        "layout(binding=0) uniform texture2D diffuse_tex;\n\
         layout(binding=100) uniform sampler diffuse_samp;\n\
         struct Tproperties{\n\
         \tfloat a;\n\
         \tuint b;\n\
         };\n\
         layout(std140, binding=201) uniform Uproperties { Tproperties properties; };\n\
         void main() {}\n"
    );
    assert_eq!(line_offset, -7);
}

#[test]
fn group_blocks_put_last_group_first_and_arrays() {
    let resources = vec![
        group("g1", vec![prop("m", ShaderPropertyKind::Matrix4Array { max_len: 4 })], 0),
        group("g2", vec![prop("c", ShaderPropertyKind::Color)], 3),
    ];
    let mut source = String::new();
    let mut line_offset: isize = 10;
    generate_resource_declarations(&resources, &mut source, &mut line_offset);
    assert_eq!(
        source,
        "struct Tg2{\n\tvec4 c;\n};\nlayout(std140, binding=203) uniform Ug2 { Tg2 g2; };\n\
         struct Tg1{\n\tmat4 m[4];\n};\nlayout(std140, binding=200) uniform Ug1 { Tg1 g1; };\n"
    );
    assert_eq!(line_offset, 2);
}

#[test]
fn preprocess_rewrites_textures_builtins_and_bools() {
    let resources = vec![
        texture("tex", SamplerKind::Sampler2D, 0),
        texture("texNormal", SamplerKind::Sampler2D, 1),
        group("properties", vec![prop("flag", ShaderPropertyKind::Bool), prop("x", ShaderPropertyKind::Float)], 2),
    ];
    let mut source = "vec4 a = texture(texNormal, uv); vec4 b = texture(tex, uv); int i = gl_InstanceID + gl_VertexID; if (properties.flag) {}".to_string();
    preprocess_shader(&mut source, &resources);
    assert_eq!(
        source,
        "vec4 a = texture(sampler2D(texNormal_tex, texNormal_samp), uv); vec4 b = texture(sampler2D(tex_tex, tex_samp), uv); \
         int i = int(gl_InstanceIndex + 0) + int(gl_VertexIndex + 0); if (bool(properties.flag)) {}"
    );
}

#[test]
fn prepare_source_puts_version_and_shared_first() {
    assert_eq!(
        prepare_source("float shared() { return 1.0; }", "void main() {}"),
        "#version 450\n// include 'shared.glsl'\nfloat shared() { return 1.0; }\n// end of include\nvoid main() {}"
    );
}

#[test]
fn source_without_call_is_unchanged() {
    let mut s = "float x = S_PointShadowFactor + shadowMap;".to_string();
    replace_texture_arg_in_calls(&mut s, "S_PointShadow", "shadowMap");
    assert_eq!(s, "float x = S_PointShadowFactor + shadowMap;");
}

#[test]
fn ordinary_definitions_rewrite_cleanly() {
    assert!(definitions_rewrite_cleanly_of("float f(in sampler2D s, vec2 uv) { return texture(s, uv).r; }"));
    assert!(definitions_rewrite_cleanly_of("void main() { }"));
    assert!(definitions_rewrite_cleanly_of(""));
}

#[test]
fn nested_definition_that_shrinks_does_not_rewrite_cleanly() {
    // Rewriting the inner definition first shortens the text, so the outer
    // body's end lies past the end of the rewritten text.
    let source = format!("void f(in sampler2D a) {{ void g(in{}sampler2D b){}{{ }} }}", " ".repeat(30), " ".repeat(10));
    assert!(!definitions_rewrite_cleanly_of(&source));
}
