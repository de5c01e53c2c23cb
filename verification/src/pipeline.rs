//! Pipeline catalog — render pipeline variants for known rendering paths.
//!
//! Each [`VariantKey`] names a rendering path (GBuffer, forward opaque, forward
//! alpha, shadow, etc.) and fixes its blend, depth and cull state. The catalog
//! is owned by a program; callers look up by variant name rather than
//! computing a hash key.
//!
//! The fixed-function state is described with the library's own copies of the
//! wgpu enums ([`Face`], [`CompareFunction`], [`BlendFactor`],
//! [`BlendOperation`]) and structs ([`BlendComponent`], [`BlendState`]); they
//! have the same variants and fields as their wgpu namesakes.
use crate::gpu::arc_clone;
use std::sync::Arc;
use vstd::prelude::*;
use wgpu::RenderPipeline;

verus! {

/// Face of a vertex (wgpu's `Face`).
#[derive(Debug, Clone, Copy, PartialEq, Eq, Hash, Structural)]
pub enum Face {
    /// Front face
    Front,
    /// Back face
    Back,
}

/// Comparison function used for depth and stencil operations (wgpu's
/// `CompareFunction`).
#[derive(Debug, Clone, Copy, PartialEq, Eq, Hash, Structural)]
pub enum CompareFunction {
    /// Function never passes
    Never,
    /// Function passes if new value less than existing value
    Less,
    /// Function passes if new value is equal to existing value
    Equal,
    /// Function passes if new value is less than or equal to existing value
    LessEqual,
    /// Function passes if new value is greater than existing value
    Greater,
    /// Function passes if new value is not equal to existing value
    NotEqual,
    /// Function passes if new value is greater than or equal to existing value
    GreaterEqual,
    /// Function always passes
    Always,
}

/// Whether a test with comparison `c` passes a new value `new` against the
/// stored value `existing`, as wgpu documents each function.
pub open spec fn compare_passes(c: CompareFunction, new: int, existing: int) -> bool {
    match c {
        CompareFunction::Never => false,
        CompareFunction::Less => new < existing,
        CompareFunction::Equal => new == existing,
        CompareFunction::LessEqual => new <= existing,
        CompareFunction::Greater => new > existing,
        CompareFunction::NotEqual => new != existing,
        CompareFunction::GreaterEqual => new >= existing,
        CompareFunction::Always => true,
    }
}

/// Alpha blend factor (wgpu's `BlendFactor`).
#[derive(Debug, Clone, Copy, PartialEq, Eq, Hash, Structural)]
pub enum BlendFactor {
    Zero,
    One,
    Src,
    OneMinusSrc,
    SrcAlpha,
    OneMinusSrcAlpha,
    Dst,
    OneMinusDst,
    DstAlpha,
    OneMinusDstAlpha,
    SrcAlphaSaturated,
    Constant,
    OneMinusConstant,
    Src1,
    OneMinusSrc1,
    Src1Alpha,
    OneMinusSrc1Alpha,
}

/// Alpha blend operation (wgpu's `BlendOperation`).
#[derive(Debug, Clone, Copy, PartialEq, Eq, Hash, Structural)]
pub enum BlendOperation {
    Add,
    Subtract,
    ReverseSubtract,
    Min,
    Max,
}

/// The value of a blend factor for one channel, as wgpu documents it, in
/// units where 1 is full intensity: `src`, `src_alpha` come from the
/// fragment's (first) output, `src1`, `src1_alpha` from its second output,
/// `dst`, `dst_alpha` from the target, `constant` from the blend constant.
pub open spec fn factor_value(
    f: BlendFactor,
    src: int,
    src_alpha: int,
    src1: int,
    src1_alpha: int,
    dst: int,
    dst_alpha: int,
    constant: int,
) -> int {
    match f {
        BlendFactor::Zero => 0,
        BlendFactor::One => 1,
        BlendFactor::Src => src,
        BlendFactor::OneMinusSrc => 1 - src,
        BlendFactor::SrcAlpha => src_alpha,
        BlendFactor::OneMinusSrcAlpha => 1 - src_alpha,
        BlendFactor::Dst => dst,
        BlendFactor::OneMinusDst => 1 - dst,
        BlendFactor::DstAlpha => dst_alpha,
        BlendFactor::OneMinusDstAlpha => 1 - dst_alpha,
        BlendFactor::SrcAlphaSaturated => if src_alpha <= 1 - dst_alpha { src_alpha } else { 1 - dst_alpha },
        BlendFactor::Constant => constant,
        BlendFactor::OneMinusConstant => 1 - constant,
        BlendFactor::Src1 => src1,
        BlendFactor::OneMinusSrc1 => 1 - src1,
        BlendFactor::Src1Alpha => src1_alpha,
        BlendFactor::OneMinusSrc1Alpha => 1 - src1_alpha,
    }
}

/// How a blend operation combines the weighted source `a` and the weighted
/// destination `b`, as wgpu documents it.
pub open spec fn operation_result(op: BlendOperation, a: int, b: int) -> int {
    match op {
        BlendOperation::Add => a + b,
        BlendOperation::Subtract => a - b,
        BlendOperation::ReverseSubtract => b - a,
        BlendOperation::Min => if a <= b { a } else { b },
        BlendOperation::Max => if a >= b { a } else { b },
    }
}

/// Describes a blend component of a `BlendState` (wgpu's `BlendComponent`).
#[derive(Debug, Clone, Copy, PartialEq, Eq, Hash, Structural)]
pub struct BlendComponent {
    /// Multiplier for the source, which is produced by the fragment shader.
    pub src_factor: BlendFactor,
    /// Multiplier for the destination, which is stored in the target.
    pub dst_factor: BlendFactor,
    /// The binary operation applied to the source and destination,
    /// multiplied by their respective factors.
    pub operation: BlendOperation,
}

/// Describe the blend state of a render pipeline (wgpu's `BlendState`).
#[derive(Debug, Clone, Copy, PartialEq, Eq, Hash, Structural)]
pub struct BlendState {
    /// Color equation.
    pub color: BlendComponent,
    /// Alpha equation.
    pub alpha: BlendComponent,
}

/// Named pipeline variants used by Fyrox's rendering pipeline.
///
/// Each variant encodes fixed rendering semantics (blend, depth write, cull).
/// The program owns a `PipelineCatalog` that maps these keys to built pipelines.
#[derive(Debug, Clone, Copy, PartialEq, Eq, Hash, Structural)]
pub enum VariantKey {
    /// Opaque geometry rendered into the G-buffer.
    GBufferOpaque,
    /// Alpha-tested / masked geometry rendered into the G-buffer.
    GBufferMasked,
    /// Opaque geometry in the forward pass.
    ForwardOpaque,
    /// Alpha-blended geometry in the forward pass.
    ForwardAlphaBlend,
    /// Alpha-tested geometry in the forward pass.
    ForwardMaskedAlphaBlend,
    /// Shadow-casting directional/point/spot light depth pass.
    ShadowDepth,
    /// Shadow depth pass with front-face culling (for two-sided shadows).
    ShadowDepthCulledFront,
}

/// Standard "source over" alpha blending: color `src·αs + dst·(1-αs)`,
/// alpha `src + dst·(1-αs)`.
pub open spec fn alpha_blending() -> BlendState {
    BlendState {
        color: BlendComponent {
            src_factor: BlendFactor::SrcAlpha,
            dst_factor: BlendFactor::OneMinusSrcAlpha,
            operation: BlendOperation::Add,
        },
        alpha: BlendComponent {
            src_factor: BlendFactor::One,
            dst_factor: BlendFactor::OneMinusSrcAlpha,
            operation: BlendOperation::Add,
        },
    }
}

/// The two forward alpha-blended variants blend; every other variant does not.
pub open spec fn variant_blend(v: VariantKey) -> Option<BlendState> {
    match v {
        VariantKey::ForwardAlphaBlend | VariantKey::ForwardMaskedAlphaBlend => Some(alpha_blending()),
        _ => None,
    }
}

/// Every variant writes depth except forward alpha blending.
pub open spec fn variant_depth_write(v: VariantKey) -> bool {
    v != VariantKey::ForwardAlphaBlend
}

/// Every variant culls back faces except the front-culled shadow pass.
pub open spec fn variant_cull(v: VariantKey) -> Face {
    if v == VariantKey::ShadowDepthCulledFront { Face::Front } else { Face::Back }
}

/// Law: every variant culls a face; only the front-culled shadow depth
/// variant culls front faces, every other variant culls back faces.
pub proof fn lemma_cull_front_only_for_culled_front_shadow(v: VariantKey)
    ensures
        variant_cull(v) == Face::Front <==> v == VariantKey::ShadowDepthCulledFront,
        variant_cull(v) == Face::Back <==> v != VariantKey::ShadowDepthCulledFront,
{
}

/// Every variant writes color except the two shadow depth variants.
pub open spec fn variant_color_write(v: VariantKey) -> bool {
    v != VariantKey::ShadowDepth && v != VariantKey::ShadowDepthCulledFront
}

/// Position of a variant in declaration order.
pub open spec fn variant_index(v: VariantKey) -> int {
    match v {
        VariantKey::GBufferOpaque => 0,
        VariantKey::GBufferMasked => 1,
        VariantKey::ForwardOpaque => 2,
        VariantKey::ForwardAlphaBlend => 3,
        VariantKey::ForwardMaskedAlphaBlend => 4,
        VariantKey::ShadowDepth => 5,
        VariantKey::ShadowDepthCulledFront => 6,
    }
}

/// All variants in declaration order.
pub open spec fn all_variants() -> Seq<VariantKey> {
    seq![
        VariantKey::GBufferOpaque,
        VariantKey::GBufferMasked,
        VariantKey::ForwardOpaque,
        VariantKey::ForwardAlphaBlend,
        VariantKey::ForwardMaskedAlphaBlend,
        VariantKey::ShadowDepth,
        VariantKey::ShadowDepthCulledFront,
    ]
}

/// The debug label of a variant's pipeline: the variant's own name.
pub open spec fn variant_label(v: VariantKey) -> Seq<char> {
    match v {
        VariantKey::GBufferOpaque => "GBufferOpaque"@,
        VariantKey::GBufferMasked => "GBufferMasked"@,
        VariantKey::ForwardOpaque => "ForwardOpaque"@,
        VariantKey::ForwardAlphaBlend => "ForwardAlphaBlend"@,
        VariantKey::ForwardMaskedAlphaBlend => "ForwardMaskedAlphaBlend"@,
        VariantKey::ShadowDepth => "ShadowDepth"@,
        VariantKey::ShadowDepthCulledFront => "ShadowDepthCulledFront"@,
    }
}

impl VariantKey {
    /// Returns the blend state for this variant, if any.
    pub fn blend_state(self) -> (r: Option<BlendState>)
        ensures
            r == variant_blend(self),
    {
        match self {
            Self::GBufferOpaque
            | Self::GBufferMasked
            | Self::ForwardOpaque
            | Self::ShadowDepth
            | Self::ShadowDepthCulledFront => None,
            Self::ForwardAlphaBlend | Self::ForwardMaskedAlphaBlend => Some(BlendState {
                color: BlendComponent {
                    src_factor: BlendFactor::SrcAlpha,
                    dst_factor: BlendFactor::OneMinusSrcAlpha,
                    operation: BlendOperation::Add,
                },
                alpha: BlendComponent {
                    src_factor: BlendFactor::One,
                    dst_factor: BlendFactor::OneMinusSrcAlpha,
                    operation: BlendOperation::Add,
                },
            }),
        }
    }

    /// Returns whether depth should be written for this variant.
    pub fn depth_write(self) -> (r: bool)
        ensures
            r == variant_depth_write(self),
    {
        match self {
            Self::ForwardAlphaBlend => false,
            _ => true,
        }
    }

    /// Returns the depth compare function for this variant: always `Less`.
    pub fn depth_compare(self) -> (r: CompareFunction)
        ensures
            r == CompareFunction::Less,
    {
        CompareFunction::Less
    }

    /// Returns the cull mode for this variant.
    pub fn cull_mode(self) -> (r: Option<Face>)
        ensures
            r == Some(variant_cull(self)),
            r is Some,
            r == Some(Face::Front) <==> self == VariantKey::ShadowDepthCulledFront,
    {
        match self {
            Self::ShadowDepthCulledFront => Some(Face::Front),
            Self::ShadowDepth => Some(Face::Back),
            _ => Some(Face::Back),
        }
    }

    /// Returns whether color should be written for this variant.
    pub fn color_write(self) -> (r: bool)
        ensures
            r == variant_color_write(self),
    {
        match self {
            Self::ShadowDepth | Self::ShadowDepthCulledFront => false,
            _ => true,
        }
    }

    /// The debug label given to this variant's pipeline.
    pub fn label(self) -> (r: &'static str)
        ensures
            r@ == variant_label(self),
    {
        match self {
            VariantKey::GBufferOpaque => "GBufferOpaque",
            VariantKey::GBufferMasked => "GBufferMasked",
            VariantKey::ForwardOpaque => "ForwardOpaque",
            VariantKey::ForwardAlphaBlend => "ForwardAlphaBlend",
            VariantKey::ForwardMaskedAlphaBlend => "ForwardMaskedAlphaBlend",
            VariantKey::ShadowDepth => "ShadowDepth",
            VariantKey::ShadowDepthCulledFront => "ShadowDepthCulledFront",
        }
    }

    /// Position of this variant in declaration order.
    pub fn index(self) -> (r: usize)
        ensures
            r == variant_index(self),
    {
        match self {
            VariantKey::GBufferOpaque => 0,
            VariantKey::GBufferMasked => 1,
            VariantKey::ForwardOpaque => 2,
            VariantKey::ForwardAlphaBlend => 3,
            VariantKey::ForwardMaskedAlphaBlend => 4,
            VariantKey::ShadowDepth => 5,
            VariantKey::ShadowDepthCulledFront => 6,
        }
    }

    /// All standard variants, in declaration order.
    pub fn all() -> (r: Vec<VariantKey>)
        ensures
            r@ == all_variants(),
    {
        vec![
            VariantKey::GBufferOpaque,
            VariantKey::GBufferMasked,
            VariantKey::ForwardOpaque,
            VariantKey::ForwardAlphaBlend,
            VariantKey::ForwardMaskedAlphaBlend,
            VariantKey::ShadowDepth,
            VariantKey::ShadowDepthCulledFront,
        ]
    }
}

/// Law: a variant that blends never writes depth unless it is the masked
/// forward variant; shadow variants write depth but no color; blending
/// variants write color.
pub proof fn lemma_variant_state_consistent(v: VariantKey)
    ensures
        !variant_color_write(v) ==> variant_depth_write(v) && variant_blend(v) is None,
        variant_blend(v) is Some ==> variant_color_write(v),
        !variant_depth_write(v) ==> variant_blend(v) is Some,
{
}

/// Law: the blending variants blend "source over": the color channel becomes
/// `src·αs + dst·(1 - αs)` and alpha `αs + αd·(1 - αs)`, where `αs`, `αd` are the
/// source and destination alphas; every other variant does not blend.
pub proof fn lemma_blending_is_source_over(v: VariantKey, src: int, src_alpha: int, dst: int, dst_alpha: int, constant: int)
    ensures
        variant_blend(v) matches Some(b) ==> {
            &&& operation_result(
                b.color.operation,
                src * factor_value(b.color.src_factor, src, src_alpha, src, src_alpha, dst, dst_alpha, constant),
                dst * factor_value(b.color.dst_factor, src, src_alpha, src, src_alpha, dst, dst_alpha, constant),
            ) == src * src_alpha + dst * (1 - src_alpha)
            &&& operation_result(
                b.alpha.operation,
                src_alpha * factor_value(b.alpha.src_factor, src_alpha, src_alpha, src_alpha, src_alpha, dst_alpha, dst_alpha, constant),
                dst_alpha * factor_value(b.alpha.dst_factor, src_alpha, src_alpha, src_alpha, src_alpha, dst_alpha, dst_alpha, constant),
            ) == src_alpha + dst_alpha * (1 - src_alpha)
        },
        variant_blend(v) is Some <==> (v == VariantKey::ForwardAlphaBlend || v == VariantKey::ForwardMaskedAlphaBlend),
{
}

/// Law: only the forward alpha-blended variant leaves depth unwritten, and
/// exactly the shadow depth variants leave color unwritten.
pub proof fn lemma_variant_writes(v: VariantKey)
    ensures
        !variant_depth_write(v) <==> v == VariantKey::ForwardAlphaBlend,
        !variant_color_write(v) <==> (v == VariantKey::ShadowDepth || v == VariantKey::ShadowDepthCulledFront),
{
}

/// Law: every variant occurs exactly once in `all_variants()`, at its index.
pub proof fn lemma_all_variants_indexed(v: VariantKey)
    ensures
        0 <= variant_index(v) < all_variants().len(),
        all_variants()[variant_index(v)] == v,
        forall|i: int| 0 <= i < all_variants().len() ==> variant_index(#[trigger] all_variants()[i]) == i,
{
}

/// A catalog of render pipeline variants for a single program.
///
/// Owned by a `WgpuProgram`; one slot per [`VariantKey`], in declaration order.
pub struct PipelineCatalog {
    by_variant: [Option<Arc<RenderPipeline>>; 7],
}

impl PipelineCatalog {
    /// The catalog's contents: the pipeline stored for each variant, if any.
    pub closed spec fn view_at(&self, v: VariantKey) -> Option<RenderPipeline> {
        match self.by_variant@[variant_index(v)] {
            Some(p) => Some(*p),
            None => None,
        }
    }

    /// Looks up a pipeline by variant key.
    pub fn get(&self, key: VariantKey) -> (r: Option<Arc<RenderPipeline>>)
        ensures
            match r {
                Some(p) => self.view_at(key) == Some(*p),
                None => self.view_at(key) is None,
            },
    {
        match &self.by_variant[key.index()] {
            Some(p) => Some(arc_clone(p)),
            None => None,
        }
    }

    /// Returns all variants currently in the catalog, in declaration order.
    pub fn variants(&self) -> (r: Vec<VariantKey>)
        ensures
            forall|v: VariantKey| r@.contains(v) <==> self.view_at(v) is Some,
            forall|i: int, j: int| 0 <= i < j < r@.len() ==> variant_index(r@[i]) < variant_index(r@[j]),
    {
        let all = VariantKey::all();
        let mut r: Vec<VariantKey> = Vec::new();
        let mut i: usize = 0;
        while i < all.len()
            invariant
                all@ == all_variants(),
                0 <= i <= 7,
                forall|v: VariantKey| r@.contains(v) <==> (variant_index(v) < i && self.view_at(v) is Some),
                forall|k: int| 0 <= k < r@.len() ==> variant_index(r@[k]) < i,
                forall|a: int, b: int| 0 <= a < b < r@.len() ==> variant_index(r@[a]) < variant_index(r@[b]),
            decreases 7 - i,
        {
            let v = all[i];
            proof {
                lemma_all_variants_indexed(v);
            }
            let ghost r0 = r@;
            let present = self.by_variant[v.index()].is_some();
            if present {
                r.push(v);
            }
            assert(present == (self.view_at(v) is Some));
            assert(r@ == if present { r0.push(v) } else { r0 });
            assert forall|w: VariantKey| r@.contains(w) <==> (variant_index(w) < i + 1 && self.view_at(w) is Some) by {
                lemma_all_variants_indexed(w);
                if variant_index(w) == i {
                    assert(w == v);
                }
                if present {
                    assert(r@.contains(w) <==> (r0.contains(w) || w == v)) by {
                        if r@.contains(w) && !r0.contains(w) {
                            let k = choose|k: int| 0 <= k < r@.len() && r@[k] == w;
                            assert(k == r0.len());
                        }
                        if w == v {
                            assert(r@[r0.len() as int] == v);
                        }
                        if r0.contains(w) {
                            let k = choose|k: int| 0 <= k < r0.len() && r0[k] == w;
                            assert(r@[k] == w);
                        }
                    }
                }
            }
            i = i + 1;
        }
        r
    }

    /// Stores `pipeline` as the pipeline of `variant`, replacing any earlier
    /// one, and returns the `Arc` the catalog now holds.
    pub fn insert(&mut self, variant: VariantKey, pipeline: Arc<RenderPipeline>) -> (r: Arc<RenderPipeline>)
        ensures
            *r == *pipeline,
            final(self).view_at(variant) == Some(*pipeline),
            forall|v: VariantKey| v != variant ==> final(self).view_at(v) == old(self).view_at(v),
    {
        let r = arc_clone(&pipeline);
        let idx = variant.index();
        self.by_variant[idx] = Some(pipeline);
        proof {
            assert forall|v: VariantKey| v != variant implies final(self).view_at(v) == old(self).view_at(v) by {
                lemma_all_variants_indexed(v);
                lemma_all_variants_indexed(variant);
            }
        }
        r
    }
}

impl Default for PipelineCatalog {
    /// An empty catalog: no variant has a pipeline.
    fn default() -> (r: Self)
        ensures
            forall|v: VariantKey| r.view_at(v) is None,
    {
        let catalog = PipelineCatalog { by_variant: [None, None, None, None, None, None, None] };
        catalog
    }
}

} // verus!
