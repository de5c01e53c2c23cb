use fyrox_graphics_wgpu::render_pass::RenderPass;

#[test]
fn render_pass_equality() {
    assert_eq!(RenderPass::GBuffer, RenderPass::GBuffer);
    assert_ne!(RenderPass::GBuffer, RenderPass::Shadow);
}

#[test]
fn gbuffer_pass_name_and_clears() {
    let p = RenderPass::GBuffer;
    assert!(p.clears_depth());
    assert!(!p.clears_color());
    assert_eq!(p.name(), "GBuffer");
}

#[test]
fn lighting_pass_clears_nothing() {
    let p = RenderPass::Lighting;
    assert!(!p.clears_color());
    assert!(!p.clears_depth());
}

#[test]
fn ui_and_post_process_clear_color_only() {
    assert!(RenderPass::UI.clears_color());
    assert!(!RenderPass::UI.clears_depth());
    assert!(RenderPass::PostProcess.clears_color());
    assert!(!RenderPass::PostProcess.clears_depth());
}

#[test]
fn shadow_pass_clears_depth_only() {
    assert!(RenderPass::Shadow.clears_depth());
    assert!(!RenderPass::Shadow.clears_color());
}

#[test]
fn pass_names_are_distinct_and_no_pass_clears_both() {
    let all = [
        RenderPass::GBuffer,
        RenderPass::Shadow,
        RenderPass::Lighting,
        RenderPass::ForwardOpaque,
        RenderPass::ForwardTransparent,
        RenderPass::Outline,
        RenderPass::PostProcess,
        RenderPass::UI,
    ];
    let names = ["GBuffer", "Shadow", "Lighting", "ForwardOpaque", "ForwardTransparent", "Outline", "PostProcess", "UI"];
    for (i, a) in all.iter().enumerate() {
        assert_eq!(a.name(), names[i]);
        assert!(!(a.clears_color() && a.clears_depth()));
        for (j, b) in all.iter().enumerate() {
            assert_eq!(i == j, a.name() == b.name());
        }
    }
}
