//! Named render pass types and the clear policy of each pass.
//!
//! Fyrox uses a fixed set of named render passes with well-defined ordering
//! and clear semantics. `RenderPass` is the canonical name for each pass.
//! Each pass knows its debug name and which attachments it clears; the
//! clear values themselves are fixed: depth is cleared to the far plane
//! (`1.0`) and color to opaque black (`[0, 0, 0, 1]`).
use vstd::prelude::*;

verus! {

/// A named render pass in Fyrox's rendering pipeline.
///
/// Each variant corresponds to a distinct rendering phase with a specific
/// role in the deferred/forward pipeline.
#[derive(Debug, Clone, Copy, PartialEq, Eq, Hash, Structural)]
pub enum RenderPass {
    /// G-Buffer construction pass — renders scene geometry into the
    /// geometry buffer (albedo, normal, roughness, etc.).
    GBuffer,
    /// Shadow map rendering pass — renders depth from light POV.
    Shadow,
    /// Deferred lighting pass — reads G-Buffer and computes lighting.
    Lighting,
    /// Forward opaque pass — renders opaque geometry with lighting applied.
    ForwardOpaque,
    /// Forward transparent pass — alpha-blended geometry (glass, water, etc.).
    ForwardTransparent,
    /// Outline pass — renders selected-object outlines using scene depth.
    Outline,
    /// Post-processing pass — bloom, tone-mapping, FXAA, etc.
    PostProcess,
    /// UI / editor pass — renders UI elements on top of everything.
    UI,
}

/// The debug name of a pass: the variant's own name.
pub open spec fn pass_name(pass: RenderPass) -> Seq<char> {
    match pass {
        RenderPass::GBuffer => "GBuffer"@,
        RenderPass::Shadow => "Shadow"@,
        RenderPass::Lighting => "Lighting"@,
        RenderPass::ForwardOpaque => "ForwardOpaque"@,
        RenderPass::ForwardTransparent => "ForwardTransparent"@,
        RenderPass::Outline => "Outline"@,
        RenderPass::PostProcess => "PostProcess"@,
        RenderPass::UI => "UI"@,
    }
}

/// Passes that clear the depth attachment: the two depth-producing passes.
pub open spec fn pass_clears_depth(pass: RenderPass) -> bool {
    pass == RenderPass::GBuffer || pass == RenderPass::Shadow
}

/// Passes that clear the color attachment: post-processing and UI.
pub open spec fn pass_clears_color(pass: RenderPass) -> bool {
    pass == RenderPass::PostProcess || pass == RenderPass::UI
}

impl RenderPass {
    /// Human-readable pass name for debugging / GPU profiling.
    pub fn name(self) -> (r: &'static str)
        ensures
            r@ == pass_name(self),
    {
        match self {
            RenderPass::GBuffer => "GBuffer",
            RenderPass::Shadow => "Shadow",
            RenderPass::Lighting => "Lighting",
            RenderPass::ForwardOpaque => "ForwardOpaque",
            RenderPass::ForwardTransparent => "ForwardTransparent",
            RenderPass::Outline => "Outline",
            RenderPass::PostProcess => "PostProcess",
            RenderPass::UI => "UI",
        }
    }

    /// Whether this pass clears its depth attachment (to `1.0`).
    pub fn clears_depth(self) -> (r: bool)
        ensures
            r == pass_clears_depth(self),
    {
        match self {
            RenderPass::GBuffer | RenderPass::Shadow => true,
            _ => false,
        }
    }

    /// Whether this pass clears its color attachment (to opaque black).
    pub fn clears_color(self) -> (r: bool)
        ensures
            r == pass_clears_color(self),
    {
        match self {
            RenderPass::PostProcess | RenderPass::UI => true,
            _ => false,
        }
    }
}

/// Law: no pass clears both its color and its depth attachment.
pub proof fn lemma_no_pass_clears_both(pass: RenderPass)
    ensures
        !(pass_clears_depth(pass) && pass_clears_color(pass)),
{
}

/// Law: distinct passes have distinct debug names.
pub proof fn lemma_pass_names_distinct(a: RenderPass, b: RenderPass)
    requires
        a != b,
    ensures
        pass_name(a) != pass_name(b),
{
    reveal_strlit("GBuffer");
    reveal_strlit("Shadow");
    reveal_strlit("Lighting");
    reveal_strlit("ForwardOpaque");
    reveal_strlit("ForwardTransparent");
    reveal_strlit("Outline");
    reveal_strlit("PostProcess");
    reveal_strlit("UI");
    assert(pass_name(a).len() != pass_name(b).len() || pass_name(a)[0] != pass_name(b)[0]);
}

} // verus!
