//! Decisions of the wgpu frame buffer: how Fyrox's fixed-function state maps
//! onto wgpu's, what a draw call submits, which bind group entries a set of
//! resource bindings produces, and the pipeline cache key.
//!
//! Bindings share one bind group. A resource bound at slot `b` of the shader
//! interface uses these wgpu binding numbers: a texture view at `b`, its
//! sampler at `b + 100`, a uniform buffer at `b + 200`.
use crate::bind_group_cache::{BufferDataUsage, ResourceBinding};
use crate::pipeline::{compare_passes, factor_value, operation_result, BlendFactor, BlendOperation, CompareFunction, Face};
use crate::server::PolygonFillMode;
use vstd::prelude::*;
use wgpu::TextureFormat;

verus! {

/// Depth/stencil comparison function of Fyrox's draw parameters
/// (Fyrox's `CompareFunc`).
#[derive(Debug, Clone, Copy, PartialEq, Eq, Hash, Structural)]
pub enum CompareFunc {
    Never,
    Less,
    Equal,
    LessOrEqual,
    Greater,
    NotEqual,
    GreaterOrEqual,
    Always,
}

/// Blend equation operator of Fyrox's draw parameters (Fyrox's `BlendMode`).
#[derive(Debug, Clone, Copy, PartialEq, Eq, Hash, Structural)]
pub enum BlendMode {
    Add,
    Subtract,
    ReverseSubtract,
    Min,
    Max,
}

/// Blend factor of Fyrox's draw parameters (Fyrox's `BlendFactor`).
#[derive(Debug, Clone, Copy, PartialEq, Eq, Hash, Structural)]
pub enum FyroxBlendFactor {
    Zero,
    One,
    SrcColor,
    OneMinusSrcColor,
    DstColor,
    OneMinusDstColor,
    SrcAlpha,
    OneMinusSrcAlpha,
    DstAlpha,
    OneMinusDstAlpha,
    ConstantColor,
    OneMinusConstantColor,
    ConstantAlpha,
    OneMinusConstantAlpha,
    SrcAlphaSaturate,
    Src1Color,
    OneMinusSrc1Color,
    Src1Alpha,
    OneMinusSrc1Alpha,
}

/// Which faces are culled (Fyrox's `CullFace`).
#[derive(Debug, Clone, Copy, PartialEq, Eq, Hash, Structural)]
pub enum CullFace {
    Back,
    Front,
}

/// Kind of the elements of a geometry buffer (Fyrox's `ElementKind`).
#[derive(Debug, Clone, Copy, PartialEq, Eq, Hash, Structural)]
pub enum ElementKind {
    Triangle,
    Line,
    Point,
}

/// Primitive topology of a pipeline (the three list topologies of wgpu's
/// `PrimitiveTopology`).
#[derive(Debug, Clone, Copy, PartialEq, Eq, Hash, Structural)]
pub enum PrimitiveTopology {
    PointList,
    LineList,
    TriangleList,
}

/// The range of elements a draw call renders (Fyrox's `ElementRange`).
#[derive(Debug, Clone, Copy, PartialEq, Eq, Hash, Structural)]
pub enum ElementRange {
    /// All elements of the geometry buffer.
    Full,
    /// `count` elements starting at element `offset`.
    Specific { offset: usize, count: usize },
}

/// Whether Fyrox's depth/stencil test `f` passes an incoming value `new`
/// against the stored value `existing`, as Fyrox documents each function.
pub open spec fn fyrox_compare_passes(f: CompareFunc, new: int, existing: int) -> bool {
    match f {
        CompareFunc::Never => false,
        CompareFunc::Less => new < existing,
        CompareFunc::Equal => new == existing,
        CompareFunc::LessOrEqual => new <= existing,
        CompareFunc::Greater => new > existing,
        CompareFunc::NotEqual => new != existing,
        CompareFunc::GreaterOrEqual => new >= existing,
        CompareFunc::Always => true,
    }
}

/// The wgpu comparison function of a Fyrox one.
pub open spec fn spec_compare_func(f: CompareFunc) -> CompareFunction {
    match f {
        CompareFunc::Never => CompareFunction::Never,
        CompareFunc::Less => CompareFunction::Less,
        CompareFunc::Equal => CompareFunction::Equal,
        CompareFunc::LessOrEqual => CompareFunction::LessEqual,
        CompareFunc::Greater => CompareFunction::Greater,
        CompareFunc::NotEqual => CompareFunction::NotEqual,
        CompareFunc::GreaterOrEqual => CompareFunction::GreaterEqual,
        CompareFunc::Always => CompareFunction::Always,
    }
}

/// Maps a Fyrox comparison function to its wgpu namesake.
pub fn compare_func_to_wgpu(f: CompareFunc) -> (r: CompareFunction)
    ensures
        r == spec_compare_func(f),
        forall|new: int, existing: int| #[trigger] compare_passes(r, new, existing) == fyrox_compare_passes(f, new, existing),
{
    match f {
        CompareFunc::Never => CompareFunction::Never,
        CompareFunc::Less => CompareFunction::Less,
        CompareFunc::Equal => CompareFunction::Equal,
        CompareFunc::LessOrEqual => CompareFunction::LessEqual,
        CompareFunc::Greater => CompareFunction::Greater,
        CompareFunc::NotEqual => CompareFunction::NotEqual,
        CompareFunc::GreaterOrEqual => CompareFunction::GreaterEqual,
        CompareFunc::Always => CompareFunction::Always,
    }
}

/// Law: a Fyrox comparison and its wgpu counterpart pass exactly the same
/// pairs of values, so no test is widened or narrowed (a strict test stays
/// strict); distinct Fyrox comparisons map to distinct wgpu ones.
pub proof fn lemma_compare_func_same_meaning(f: CompareFunc, g: CompareFunc)
    ensures
        forall|new: int, existing: int| #[trigger] compare_passes(spec_compare_func(f), new, existing)
            == fyrox_compare_passes(f, new, existing),
        f != g ==> spec_compare_func(f) != spec_compare_func(g),
{
    assert forall|new: int, existing: int| #[trigger] compare_passes(spec_compare_func(f), new, existing)
        == fyrox_compare_passes(f, new, existing) by {}
    if f != g && spec_compare_func(f) == spec_compare_func(g) {
        // Two comparisons with the same wgpu function pass the same pairs,
        // but distinct Fyrox comparisons differ on one of these pairs.
        assert(compare_passes(spec_compare_func(f), 0, 0) == fyrox_compare_passes(f, 0, 0));
        assert(compare_passes(spec_compare_func(f), 0, 1) == fyrox_compare_passes(f, 0, 1));
        assert(compare_passes(spec_compare_func(f), 1, 0) == fyrox_compare_passes(f, 1, 0));
        assert(compare_passes(spec_compare_func(g), 0, 0) == fyrox_compare_passes(g, 0, 0));
        assert(compare_passes(spec_compare_func(g), 0, 1) == fyrox_compare_passes(g, 0, 1));
        assert(compare_passes(spec_compare_func(g), 1, 0) == fyrox_compare_passes(g, 1, 0));
    }
}

/// Law: a tested draw's depth state compares exactly as the draw's Fyrox
/// depth test does.
pub proof fn lemma_depth_state_compares_as_tested(f: CompareFunc, depth_write: bool, has_depth_attachment: bool)
    ensures
        spec_depth_state(Some(f), depth_write, has_depth_attachment) is Some,
        forall|new: int, existing: int| #[trigger] compare_passes(
            spec_depth_state(Some(f), depth_write, has_depth_attachment).unwrap().compare, new, existing,
        ) == fyrox_compare_passes(f, new, existing),
{
    lemma_compare_func_same_meaning(f, f);
}

pub open spec fn spec_blend_mode(m: BlendMode) -> BlendOperation {
    match m {
        BlendMode::Add => BlendOperation::Add,
        BlendMode::Subtract => BlendOperation::Subtract,
        BlendMode::ReverseSubtract => BlendOperation::ReverseSubtract,
        BlendMode::Min => BlendOperation::Min,
        BlendMode::Max => BlendOperation::Max,
    }
}

/// How Fyrox's blend equation operator `m` combines the weighted source `a`
/// and the weighted destination `b`, as Fyrox documents it.
pub open spec fn fyrox_blend_result(m: BlendMode, a: int, b: int) -> int {
    match m {
        BlendMode::Add => a + b,
        BlendMode::Subtract => a - b,
        BlendMode::ReverseSubtract => b - a,
        BlendMode::Min => if a <= b { a } else { b },
        BlendMode::Max => if a >= b { a } else { b },
    }
}

/// The value of Fyrox's blend factor `f` for one channel: `src`, `src_alpha`
/// from the fragment's first output, `src1`, `src1_alpha` from its second,
/// `dst`, `dst_alpha` from the target, `constant_color` and `constant_alpha`
/// from the blend constant.
pub open spec fn fyrox_factor_value(
    f: FyroxBlendFactor,
    src: int,
    src_alpha: int,
    src1: int,
    src1_alpha: int,
    dst: int,
    dst_alpha: int,
    constant_color: int,
    constant_alpha: int,
) -> int {
    match f {
        FyroxBlendFactor::Zero => 0,
        FyroxBlendFactor::One => 1,
        FyroxBlendFactor::SrcColor => src,
        FyroxBlendFactor::OneMinusSrcColor => 1 - src,
        FyroxBlendFactor::DstColor => dst,
        FyroxBlendFactor::OneMinusDstColor => 1 - dst,
        FyroxBlendFactor::SrcAlpha => src_alpha,
        FyroxBlendFactor::OneMinusSrcAlpha => 1 - src_alpha,
        FyroxBlendFactor::DstAlpha => dst_alpha,
        FyroxBlendFactor::OneMinusDstAlpha => 1 - dst_alpha,
        FyroxBlendFactor::ConstantColor => constant_color,
        FyroxBlendFactor::OneMinusConstantColor => 1 - constant_color,
        FyroxBlendFactor::ConstantAlpha => constant_alpha,
        FyroxBlendFactor::OneMinusConstantAlpha => 1 - constant_alpha,
        FyroxBlendFactor::SrcAlphaSaturate => if src_alpha <= 1 - dst_alpha { src_alpha } else { 1 - dst_alpha },
        FyroxBlendFactor::Src1Color => src1,
        FyroxBlendFactor::OneMinusSrc1Color => 1 - src1,
        FyroxBlendFactor::Src1Alpha => src1_alpha,
        FyroxBlendFactor::OneMinusSrc1Alpha => 1 - src1_alpha,
    }
}

/// Law: a Fyrox blend operator and its wgpu counterpart combine every pair
/// of values alike.
pub proof fn lemma_blend_mode_same_meaning(m: BlendMode)
    ensures
        forall|a: int, b: int| #[trigger] operation_result(spec_blend_mode(m), a, b) == fyrox_blend_result(m, a, b),
{
}

/// Law: a Fyrox blend factor and its wgpu counterpart weigh every channel
/// alike, where the pipeline has one fragment output (the second source is
/// the first) and one blend constant (its alpha is the channel's constant).
pub proof fn lemma_blend_factor_same_meaning(f: FyroxBlendFactor)
    ensures
        forall|src: int, src_alpha: int, dst: int, dst_alpha: int, constant: int|
            #[trigger] factor_value(spec_blend_factor(f), src, src_alpha, src, src_alpha, dst, dst_alpha, constant)
                == fyrox_factor_value(f, src, src_alpha, src, src_alpha, dst, dst_alpha, constant, constant),
{
}

/// Maps a Fyrox blend equation operator to its wgpu namesake.
pub fn blend_mode_to_wgpu(m: BlendMode) -> (r: BlendOperation)
    ensures
        r == spec_blend_mode(m),
{
    match m {
        BlendMode::Add => BlendOperation::Add,
        BlendMode::Subtract => BlendOperation::Subtract,
        BlendMode::ReverseSubtract => BlendOperation::ReverseSubtract,
        BlendMode::Min => BlendOperation::Min,
        BlendMode::Max => BlendOperation::Max,
    }
}

/// Fyrox's color factors map to wgpu's `Src`/`Dst` factors; the separate
/// constant-color and constant-alpha factors both map to wgpu's single
/// `Constant` (resp. `OneMinusConstant`).
pub open spec fn spec_blend_factor(f: FyroxBlendFactor) -> BlendFactor {
    match f {
        FyroxBlendFactor::Zero => BlendFactor::Zero,
        FyroxBlendFactor::One => BlendFactor::One,
        FyroxBlendFactor::SrcColor => BlendFactor::Src,
        FyroxBlendFactor::OneMinusSrcColor => BlendFactor::OneMinusSrc,
        FyroxBlendFactor::DstColor => BlendFactor::Dst,
        FyroxBlendFactor::OneMinusDstColor => BlendFactor::OneMinusDst,
        FyroxBlendFactor::SrcAlpha => BlendFactor::SrcAlpha,
        FyroxBlendFactor::OneMinusSrcAlpha => BlendFactor::OneMinusSrcAlpha,
        FyroxBlendFactor::DstAlpha => BlendFactor::DstAlpha,
        FyroxBlendFactor::OneMinusDstAlpha => BlendFactor::OneMinusDstAlpha,
        FyroxBlendFactor::ConstantColor => BlendFactor::Constant,
        FyroxBlendFactor::ConstantAlpha => BlendFactor::Constant,
        FyroxBlendFactor::OneMinusConstantColor => BlendFactor::OneMinusConstant,
        FyroxBlendFactor::OneMinusConstantAlpha => BlendFactor::OneMinusConstant,
        FyroxBlendFactor::SrcAlphaSaturate => BlendFactor::SrcAlphaSaturated,
        FyroxBlendFactor::Src1Color => BlendFactor::Src,
        FyroxBlendFactor::OneMinusSrc1Color => BlendFactor::OneMinusSrc,
        FyroxBlendFactor::Src1Alpha => BlendFactor::SrcAlpha,
        FyroxBlendFactor::OneMinusSrc1Alpha => BlendFactor::OneMinusSrcAlpha,
    }
}

/// Maps a Fyrox blend factor to a wgpu blend factor.
///
/// The dual-source factors (`Src1Color`, ...) map to their single-source
/// counterparts.
pub fn blend_factor_to_wgpu(f: FyroxBlendFactor) -> (r: BlendFactor)
    ensures
        r == spec_blend_factor(f),
{
    match f {
        FyroxBlendFactor::Zero => BlendFactor::Zero,
        FyroxBlendFactor::One => BlendFactor::One,
        FyroxBlendFactor::SrcColor => BlendFactor::Src,
        FyroxBlendFactor::OneMinusSrcColor => BlendFactor::OneMinusSrc,
        FyroxBlendFactor::DstColor => BlendFactor::Dst,
        FyroxBlendFactor::OneMinusDstColor => BlendFactor::OneMinusDst,
        FyroxBlendFactor::SrcAlpha => BlendFactor::SrcAlpha,
        FyroxBlendFactor::OneMinusSrcAlpha => BlendFactor::OneMinusSrcAlpha,
        FyroxBlendFactor::DstAlpha => BlendFactor::DstAlpha,
        FyroxBlendFactor::OneMinusDstAlpha => BlendFactor::OneMinusDstAlpha,
        FyroxBlendFactor::ConstantColor | FyroxBlendFactor::ConstantAlpha => BlendFactor::Constant,
        FyroxBlendFactor::OneMinusConstantColor | FyroxBlendFactor::OneMinusConstantAlpha => BlendFactor::OneMinusConstant,
        FyroxBlendFactor::SrcAlphaSaturate => BlendFactor::SrcAlphaSaturated,
        FyroxBlendFactor::Src1Color => BlendFactor::Src,
        FyroxBlendFactor::OneMinusSrc1Color => BlendFactor::OneMinusSrc,
        FyroxBlendFactor::Src1Alpha => BlendFactor::SrcAlpha,
        FyroxBlendFactor::OneMinusSrc1Alpha => BlendFactor::OneMinusSrcAlpha,
    }
}

/// Maps a cull setting to the face wgpu culls.
pub fn cull_face_to_wgpu(c: Option<CullFace>) -> (r: Option<Face>)
    ensures
        r == match c {
            Some(CullFace::Back) => Some(Face::Back),
            Some(CullFace::Front) => Some(Face::Front),
            None => None::<Face>,
        },
{
    match c {
        Some(CullFace::Back) => Some(Face::Back),
        Some(CullFace::Front) => Some(Face::Front),
        None => None,
    }
}

/// The cull setting as the small code stored in a pipeline key:
/// 2 for back, 1 for front, 0 for none.
pub open spec fn spec_cull_code(c: Option<CullFace>) -> u8 {
    match c {
        Some(CullFace::Back) => 2,
        Some(CullFace::Front) => 1,
        None => 0,
    }
}

/// Indices per element: 3 for triangles, 2 for lines, 1 for points.
pub open spec fn spec_index_per_element(k: ElementKind) -> usize {
    match k {
        ElementKind::Triangle => 3,
        ElementKind::Line => 2,
        ElementKind::Point => 1,
    }
}

/// Returns the number of indices of one element.
pub fn index_per_element(k: ElementKind) -> (r: usize)
    ensures
        r == spec_index_per_element(k),
{
    match k {
        ElementKind::Triangle => 3,
        ElementKind::Line => 2,
        ElementKind::Point => 1,
    }
}

/// Vertices per primitive of a list topology: 1 for points, 2 for lines,
/// 3 for triangles.
pub open spec fn topology_vertices(t: PrimitiveTopology) -> nat {
    match t {
        PrimitiveTopology::PointList => 1,
        PrimitiveTopology::LineList => 2,
        PrimitiveTopology::TriangleList => 3,
    }
}

/// Law: the topology an element kind is drawn with has primitives of as many
/// vertices as the kind has indices per element (triangles 3, lines 2,
/// points 1), and distinct kinds are drawn with distinct topologies.
pub proof fn lemma_topology_matches_elements(k: ElementKind, j: ElementKind)
    ensures
        topology_vertices(spec_element_topology(k)) == spec_index_per_element(k),
        k == ElementKind::Triangle ==> spec_index_per_element(k) == 3,
        k == ElementKind::Line ==> spec_index_per_element(k) == 2,
        k == ElementKind::Point ==> spec_index_per_element(k) == 1,
        k != j ==> spec_element_topology(k) != spec_element_topology(j),
{
}

/// The list topology that draws an element kind.
pub open spec fn spec_element_topology(k: ElementKind) -> PrimitiveTopology {
    match k {
        ElementKind::Triangle => PrimitiveTopology::TriangleList,
        ElementKind::Line => PrimitiveTopology::LineList,
        ElementKind::Point => PrimitiveTopology::PointList,
    }
}

/// Maps an element kind to the list topology that draws it.
pub fn element_topology(k: ElementKind) -> (r: PrimitiveTopology)
    ensures
        topology_vertices(r) == spec_index_per_element(k),
        r == spec_element_topology(k),
{
    match k {
        ElementKind::Triangle => PrimitiveTopology::TriangleList,
        ElementKind::Line => PrimitiveTopology::LineList,
        ElementKind::Point => PrimitiveTopology::PointList,
    }
}

/// A blend equation and its factors, for color and for alpha (Fyrox's
/// `BlendParameters`).
#[derive(Debug, Clone, Copy, PartialEq, Eq, Hash, Structural)]
pub struct BlendParameters {
    pub sfactor: FyroxBlendFactor,
    pub dfactor: FyroxBlendFactor,
    pub alpha_sfactor: FyroxBlendFactor,
    pub alpha_dfactor: FyroxBlendFactor,
    pub rgb: BlendMode,
    pub alpha: BlendMode,
}

/// Key of the pipeline cache: everything a cached render pipeline depends on.
#[derive(Hash, PartialEq, Eq, Clone, Copy, Debug)]
pub struct PipelineKey {
    pub program_ptr: usize,
    pub color_format: TextureFormat,
    pub depth_format: Option<TextureFormat>,
    pub sample_count: u32,
    pub blend: Option<BlendParameters>,
    pub depth_test: Option<CompareFunc>,
    pub depth_write: bool,
    pub cull: u8,
    pub fill_mode: PolygonFillMode,
    pub topology: PrimitiveTopology,
}

impl PipelineKey {
    /// Builds the key of a draw's pipeline: the program's identity, the
    /// attachment formats, the sample count, the blend equation and factors,
    /// the depth test's function, whether depth is written, the cull code,
    /// the polygon fill mode and the primitive topology of the elements.
    pub fn new(
        program_ptr: usize,
        color_format: TextureFormat,
        depth_format: Option<TextureFormat>,
        sample_count: u32,
        blend: Option<BlendParameters>,
        depth_test: Option<CompareFunc>,
        depth_write: bool,
        cull_face: Option<CullFace>,
        fill_mode: PolygonFillMode,
        kind: ElementKind,
    ) -> (r: Self)
        ensures
            r == (PipelineKey {
                program_ptr,
                color_format,
                depth_format,
                sample_count,
                blend,
                depth_test,
                depth_write,
                cull: spec_cull_code(cull_face),
                fill_mode,
                topology: match kind {
                    ElementKind::Triangle => PrimitiveTopology::TriangleList,
                    ElementKind::Line => PrimitiveTopology::LineList,
                    ElementKind::Point => PrimitiveTopology::PointList,
                },
            }),
    {
        let cull: u8 = match cull_face {
            Some(CullFace::Back) => 2,
            Some(CullFace::Front) => 1,
            None => 0,
        };
        let topology = element_topology(kind);
        PipelineKey {
            program_ptr,
            color_format,
            depth_format,
            sample_count,
            blend,
            depth_test,
            depth_write,
            cull,
            fill_mode,
            topology,
        }
    }
}

/// Where a pipeline's depth-stencil state takes its format from.
#[derive(Debug, Clone, Copy, PartialEq, Eq, Structural)]
pub enum DepthFormatSource {
    /// The frame buffer's depth attachment.
    Attachment,
    /// `Depth32Float`, used when depth is tested or written but the frame
    /// buffer has no depth attachment.
    Depth32Float,
}

/// The depth-stencil state of a pipeline (stencil and bias at their defaults).
#[derive(Debug, Clone, Copy, PartialEq, Eq, Structural)]
pub struct DepthState {
    pub format: DepthFormatSource,
    pub write_enabled: bool,
    pub compare: CompareFunction,
}

/// The depth-stencil state for a draw: with depth testing or writing, the
/// test's function (`Always` if untested) and the write flag, on the
/// attachment's format or `Depth32Float`; otherwise, with a depth
/// attachment, a state that neither tests nor writes; otherwise none.
pub open spec fn spec_depth_state(depth_test: Option<CompareFunc>, depth_write: bool, has_depth_attachment: bool) -> Option<DepthState> {
    if depth_test is Some || depth_write {
        Some(DepthState {
            format: if has_depth_attachment { DepthFormatSource::Attachment } else { DepthFormatSource::Depth32Float },
            write_enabled: depth_write,
            compare: match depth_test {
                Some(f) => spec_compare_func(f),
                None => CompareFunction::Always,
            },
        })
    } else if has_depth_attachment {
        Some(DepthState { format: DepthFormatSource::Attachment, write_enabled: false, compare: CompareFunction::Always })
    } else {
        None
    }
}

/// Decides a draw's depth-stencil state.
pub fn depth_state(depth_test: Option<CompareFunc>, depth_write: bool, has_depth_attachment: bool) -> (r: Option<DepthState>)
    ensures
        r == spec_depth_state(depth_test, depth_write, has_depth_attachment),
{
    if depth_test.is_some() || depth_write {
        let compare = match depth_test {
            Some(f) => compare_func_to_wgpu(f),
            None => CompareFunction::Always,
        };
        let format = if has_depth_attachment { DepthFormatSource::Attachment } else { DepthFormatSource::Depth32Float };
        Some(DepthState { format, write_enabled: depth_write, compare })
    } else if has_depth_attachment {
        Some(DepthState { format: DepthFormatSource::Attachment, write_enabled: false, compare: CompareFunction::Always })
    } else {
        None
    }
}

/// Error of a draw call (Fyrox's `FrameworkError::InvalidElementRange`).
#[derive(Debug, Clone, Copy, PartialEq, Eq, Structural)]
pub enum DrawError {
    /// The requested elements `start..end` exceed the `total` the buffer holds.
    InvalidElementRange { start: usize, end: usize, total: usize },
}

/// What a draw call submits.
#[derive(Debug, Clone, Copy, PartialEq, Eq, Structural)]
pub enum DrawPlan {
    /// Nothing to draw (zero elements); zero triangles are reported.
    Nothing,
    /// An indexed draw of the indices `first_index..end_index` of the
    /// element buffer with base vertex `base_vertex`, for `instance_count`
    /// instances; `triangles` is what is reported.
    Indexed { first_index: u32, end_index: u32, base_vertex: i32, instance_count: u32, triangles: usize },
}

/// The elements a range selects: `(offset, count)`.
pub open spec fn spec_range_bounds(range: ElementRange, element_count: usize) -> (usize, usize) {
    match range {
        ElementRange::Full => (0usize, element_count),
        ElementRange::Specific { offset, count } => (offset, count),
    }
}

/// A draw is possible on the inputs where its arithmetic does not overflow.
pub open spec fn draw_arithmetic_fits(range: ElementRange, element_count: usize, kind: ElementKind, instance_count: u32) -> bool {
    let (offset, count) = spec_range_bounds(range, element_count);
    &&& offset + count <= usize::MAX
    &&& (offset + count <= element_count && count > 0) ==> {
        &&& (offset + count) * spec_index_per_element(kind) <= usize::MAX
        &&& count * instance_count <= usize::MAX
    }
}

/// The result of a draw: an error if the range runs past the buffer's
/// elements; nothing for zero elements; else the indices of the selected
/// elements, `offset * ipe .. (offset + count) * ipe` (as `u32`s), from base
/// vertex 0, reporting `count * instances` triangles. The offset counts
/// elements from the start of the element buffer.
pub open spec fn spec_draw_plan(range: ElementRange, element_count: usize, kind: ElementKind, instance_count: u32) -> Result<DrawPlan, DrawError> {
    let (offset, count) = spec_range_bounds(range, element_count);
    let ipe = spec_index_per_element(kind);
    if offset + count > element_count {
        Err(DrawError::InvalidElementRange { start: offset, end: (offset + count) as usize, total: element_count })
    } else if count == 0 {
        Ok(DrawPlan::Nothing)
    } else {
        Ok(DrawPlan::Indexed {
            first_index: (offset * ipe) as u32,
            end_index: ((offset + count) * ipe) as u32,
            base_vertex: 0,
            instance_count,
            triangles: (count * instance_count) as usize,
        })
    }
}

/// Decides what a draw call of `instance_count` instances over `range` of a
/// geometry buffer with `element_count` elements of `kind` submits.
pub fn plan_draw(range: ElementRange, element_count: usize, kind: ElementKind, instance_count: u32) -> (r: Result<DrawPlan, DrawError>)
    requires
        draw_arithmetic_fits(range, element_count, kind, instance_count),
    ensures
        r == spec_draw_plan(range, element_count, kind, instance_count),
{
    let (offset, count) = match range {
        ElementRange::Full => (0usize, element_count),
        ElementRange::Specific { offset, count } => (offset, count),
    };
    if offset + count > element_count {
        return Err(DrawError::InvalidElementRange { start: offset, end: offset + count, total: element_count });
    }
    if count == 0 {
        return Ok(DrawPlan::Nothing);
    }
    let ipe = index_per_element(kind);
    assert(offset * ipe <= (offset + count) * ipe) by (nonlinear_arith)
        requires ipe >= 0, count >= 0, offset >= 0;
    let first = (offset * ipe) as u32;
    let end = ((offset + count) * ipe) as u32;
    let triangles = count * (instance_count as usize);
    Ok(DrawPlan::Indexed { first_index: first, end_index: end, base_vertex: 0, instance_count, triangles })
}

/// Whether a draw's arithmetic fits (see `draw_arithmetic_fits`).
pub fn draw_arithmetic_fits_of(range: ElementRange, element_count: usize, kind: ElementKind, instance_count: u32) -> (r: bool)
    ensures
        r == draw_arithmetic_fits(range, element_count, kind, instance_count),
{
    let (offset, count) = match range {
        ElementRange::Full => (0usize, element_count),
        ElementRange::Specific { offset, count } => (offset, count),
    };
    match offset.checked_add(count) {
        None => false,
        Some(end) => {
            if end <= element_count && count > 0 {
                let ipe = index_per_element(kind);
                end.checked_mul(ipe).is_some() && count.checked_mul(instance_count as usize).is_some()
            } else {
                true
            }
        },
    }
}

/// What a bind group entry binds.
#[derive(Debug, Clone, Copy, PartialEq, Eq, Structural)]
pub enum EntryResource {
    /// The view of the texture with this identity.
    TextureView { texture_ptr: usize },
    /// The sampler with this identity.
    Sampler { sampler_ptr: usize },
    /// The buffer with this identity, from byte `offset`, `size` bytes
    /// (`None`: to the end).
    Buffer { buffer_ptr: usize, offset: u64, size: Option<u64> },
}

/// One entry of a bind group: a wgpu binding number and what it binds.
#[derive(Debug, Clone, Copy, PartialEq, Eq, Structural)]
pub struct BindGroupEntryPlan {
    pub binding: u32,
    pub resource: EntryResource,
}

/// wgpu binding number of a texture bound at shader slot `b`.
pub open spec fn texture_slot(b: int) -> int { b }

/// wgpu binding number of the sampler of a texture bound at shader slot `b`.
pub open spec fn sampler_slot(b: int) -> int { b + 100 }

/// wgpu binding number of a uniform buffer bound at shader slot `b`.
pub open spec fn buffer_slot(b: int) -> int { b + 200 }

/// The entries of one binding: a texture gives its view and its sampler, a
/// buffer gives itself (whole, or the segment).
pub open spec fn binding_entries(b: ResourceBinding) -> Seq<BindGroupEntryPlan> {
    match b {
        ResourceBinding::Texture { texture_ptr, sampler_ptr, binding } => seq![
            BindGroupEntryPlan { binding: texture_slot(binding as int) as u32, resource: EntryResource::TextureView { texture_ptr } },
            BindGroupEntryPlan { binding: sampler_slot(binding as int) as u32, resource: EntryResource::Sampler { sampler_ptr } },
        ],
        ResourceBinding::Buffer { buffer_ptr, binding, data_usage } => seq![
            BindGroupEntryPlan {
                binding: buffer_slot(binding as int) as u32,
                resource: match data_usage {
                    BufferDataUsage::UseEverything => EntryResource::Buffer { buffer_ptr, offset: 0, size: None },
                    BufferDataUsage::UseSegment { offset, size } =>
                        EntryResource::Buffer { buffer_ptr, offset: offset as u64, size: Some(size as u64) },
                },
            },
        ],
    }
}

/// The entries of a list of bindings, in order.
pub open spec fn bindings_entries(bs: Seq<ResourceBinding>) -> Seq<BindGroupEntryPlan>
    decreases bs.len(),
{
    if bs.len() == 0 {
        Seq::empty()
    } else {
        bindings_entries(bs.drop_last()) + binding_entries(bs.last())
    }
}

/// The entries of all groups, group after group.
pub open spec fn groups_entries(groups: Seq<Seq<ResourceBinding>>) -> Seq<BindGroupEntryPlan>
    decreases groups.len(),
{
    if groups.len() == 0 {
        Seq::empty()
    } else {
        groups_entries(groups.drop_last()) + bindings_entries(groups.last())
    }
}

/// A binding can become bind group entries: its slot numbers fit, and a
/// buffer segment is not empty (wgpu takes the size as a nonzero number).
pub open spec fn binding_plannable(b: ResourceBinding) -> bool {
    match b {
        ResourceBinding::Texture { binding, .. } => binding + 100 <= usize::MAX,
        ResourceBinding::Buffer { binding, data_usage, .. } => binding + 200 <= usize::MAX && match data_usage {
            BufferDataUsage::UseSegment { size, .. } => size != 0,
            BufferDataUsage::UseEverything => true,
        },
    }
}

/// Whether every binding of every group can become bind group entries.
pub fn bindings_plannable(groups: &[Vec<ResourceBinding>]) -> (r: bool)
    ensures
        r == forall|g: int, i: int| 0 <= g < groups@.len() && 0 <= i < groups@[g]@.len()
            ==> binding_plannable(#[trigger] groups@[g]@[i]),
{
    let mut gi: usize = 0;
    while gi < groups.len()
        invariant
            0 <= gi <= groups@.len(),
            forall|g: int, i: int| 0 <= g < gi && 0 <= i < groups@[g]@.len() ==> binding_plannable(#[trigger] groups@[g]@[i]),
        decreases groups@.len() - gi,
    {
        let group = &groups[gi];
        let mut i: usize = 0;
        while i < group.len()
            invariant
                0 <= gi < groups@.len(),
                group@ == groups@[gi as int]@,
                0 <= i <= group@.len(),
                forall|g: int, k: int| 0 <= g < gi && 0 <= k < groups@[g]@.len() ==> binding_plannable(#[trigger] groups@[g]@[k]),
                forall|k: int| 0 <= k < i ==> binding_plannable(#[trigger] groups@[gi as int]@[k]),
            decreases group@.len() - i,
        {
            let ok = match group[i] {
                ResourceBinding::Texture { binding, .. } => binding <= usize::MAX - 100,
                ResourceBinding::Buffer { binding, data_usage, .. } => binding <= usize::MAX - 200 && match data_usage {
                    BufferDataUsage::UseSegment { size, .. } => size != 0,
                    BufferDataUsage::UseEverything => true,
                },
            };
            if !ok {
                assert(!binding_plannable(groups@[gi as int]@[i as int]));
                return false;
            }
            i = i + 1;
        }
        gi = gi + 1;
    }
    true
}

/// Whether some entry of `es` has binding number `b`.
pub open spec fn binding_in(es: Seq<BindGroupEntryPlan>, b: u32) -> bool {
    exists|j: int| 0 <= j < es.len() && #[trigger] es[j].binding == b
}

/// The entries with duplicate binding numbers dropped: of the entries that
/// share a binding number, the first one stays.
pub open spec fn dedup_bindings(es: Seq<BindGroupEntryPlan>) -> Seq<BindGroupEntryPlan>
    decreases es.len(),
{
    if es.len() == 0 {
        Seq::empty()
    } else {
        let d = dedup_bindings(es.drop_last());
        if binding_in(d, es.last().binding) {
            d
        } else {
            d.push(es.last())
        }
    }
}

/// Law: after deduplication the binding numbers are pairwise distinct, every
/// binding number of the input is still bound, and nothing is added.
pub proof fn lemma_dedup_bindings(es: Seq<BindGroupEntryPlan>)
    ensures
        forall|i: int, j: int| 0 <= i < j < dedup_bindings(es).len()
            ==> dedup_bindings(es)[i].binding != dedup_bindings(es)[j].binding,
        forall|b: u32| binding_in(es, b) <==> binding_in(dedup_bindings(es), b),
        forall|i: int| 0 <= i < dedup_bindings(es).len() ==> es.contains(#[trigger] dedup_bindings(es)[i]),
        dedup_bindings(es).len() == 0 <==> es.len() == 0,
    decreases es.len(),
{
    if es.len() > 0 {
        let p = es.drop_last();
        lemma_dedup_bindings(p);
        let d = dedup_bindings(p);
        let e = es.last();
        assert forall|b: u32| binding_in(es, b) <==> binding_in(dedup_bindings(es), b) by {
            if binding_in(es, b) {
                let j = choose|j: int| 0 <= j < es.len() && #[trigger] es[j].binding == b;
                if j < p.len() {
                    assert(p[j].binding == b);
                    assert(binding_in(p, b));
                    let k = choose|k: int| 0 <= k < d.len() && #[trigger] d[k].binding == b;
                    if !binding_in(d, e.binding) {
                        assert(dedup_bindings(es)[k].binding == b);
                    }
                } else {
                    if !binding_in(d, e.binding) {
                        assert(dedup_bindings(es)[d.len() as int].binding == b);
                    }
                }
            }
            if binding_in(dedup_bindings(es), b) {
                let k = choose|k: int| 0 <= k < dedup_bindings(es).len() && #[trigger] dedup_bindings(es)[k].binding == b;
                if k < d.len() {
                    assert(dedup_bindings(es)[k] == d[k]);
                    assert(binding_in(d, b));
                    let j = choose|j: int| 0 <= j < p.len() && #[trigger] p[j].binding == b;
                    assert(es[j].binding == b);
                } else {
                    assert(es[es.len() - 1].binding == b);
                }
            }
        }
        assert forall|i: int| 0 <= i < dedup_bindings(es).len() implies es.contains(#[trigger] dedup_bindings(es)[i]) by {
            if i < d.len() {
                assert(dedup_bindings(es)[i] == d[i]);
                let j = choose|j: int| 0 <= j < p.len() && p[j] == d[i];
                assert(es[j] == d[i]);
            } else {
                assert(es[es.len() - 1] == dedup_bindings(es)[i]);
            }
        }
        if !binding_in(d, e.binding) {
            assert forall|i: int, j: int| 0 <= i < j < dedup_bindings(es).len()
                implies dedup_bindings(es)[i].binding != dedup_bindings(es)[j].binding by {
                if j == d.len() {
                    assert(dedup_bindings(es)[i] == d[i]);
                    if d[i].binding == e.binding {
                        assert(binding_in(d, e.binding));
                    }
                } else {
                    assert(dedup_bindings(es)[i] == d[i]);
                    assert(dedup_bindings(es)[j] == d[j]);
                }
            }
        } else {
            assert(d.len() > 0);
        }
    }
}

fn dedup_entries(es: &[BindGroupEntryPlan]) -> (r: Vec<BindGroupEntryPlan>)
    ensures
        r@ == dedup_bindings(es@),
{
    let mut out: Vec<BindGroupEntryPlan> = Vec::new();
    let mut i: usize = 0;
    assert(es@.take(0) =~= Seq::<BindGroupEntryPlan>::empty());
    while i < es.len()
        invariant
            0 <= i <= es@.len(),
            out@ == dedup_bindings(es@.take(i as int)),
        decreases es@.len() - i,
    {
        let e = es[i];
        let mut found = false;
        let mut k: usize = 0;
        while k < out.len()
            invariant
                0 <= k <= out@.len(),
                found == exists|j: int| 0 <= j < k && #[trigger] out@[j].binding == e.binding,
            decreases out@.len() - k,
        {
            if out[k].binding == e.binding {
                found = true;
            }
            k = k + 1;
        }
        assert(es@.take(i + 1).drop_last() =~= es@.take(i as int));
        assert(es@.take(i + 1).last() == e);
        assert(found == binding_in(out@, e.binding));
        if !found {
            out.push(e);
        }
        i = i + 1;
    }
    assert(es@.take(es@.len() as int) =~= es@);
    out
}

/// The entries of all groups, in order, before deduplication.
fn collect_entries(groups: &[Vec<ResourceBinding>]) -> (r: Vec<BindGroupEntryPlan>)
    requires
        forall|g: int, i: int| 0 <= g < groups@.len() && 0 <= i < groups@[g]@.len() ==> binding_plannable(#[trigger] groups@[g]@[i]),
    ensures
        r@ == groups_entries(groups@.map_values(|g: Vec<ResourceBinding>| g@)),
{
    let ghost gs = groups@.map_values(|g: Vec<ResourceBinding>| g@);
    let mut entries: Vec<BindGroupEntryPlan> = Vec::new();
    let mut gi: usize = 0;
    while gi < groups.len()
        invariant
            0 <= gi <= groups@.len(),
            gs == groups@.map_values(|g: Vec<ResourceBinding>| g@),
            forall|g: int, i: int| 0 <= g < groups@.len() && 0 <= i < groups@[g]@.len() ==> binding_plannable(#[trigger] groups@[g]@[i]),
            entries@ == groups_entries(gs.take(gi as int)),
        decreases groups@.len() - gi,
    {
        let group = &groups[gi];
        let ghost before = entries@;
        let mut bi: usize = 0;
        while bi < group.len()
            invariant
                0 <= bi <= group@.len(),
                group@ == gs[gi as int],
                forall|i: int| 0 <= i < group@.len() ==> binding_plannable(#[trigger] group@[i]),
                entries@ == before + bindings_entries(group@.take(bi as int)),
            decreases group@.len() - bi,
        {
            let b = group[bi];
            let ghost e0 = entries@;
            match b {
                ResourceBinding::Texture { texture_ptr, sampler_ptr, binding } => {
                    entries.push(BindGroupEntryPlan { binding: binding as u32, resource: EntryResource::TextureView { texture_ptr } });
                    entries.push(BindGroupEntryPlan { binding: (binding + 100) as u32, resource: EntryResource::Sampler { sampler_ptr } });
                },
                ResourceBinding::Buffer { buffer_ptr, binding, data_usage } => {
                    let resource = match data_usage {
                        BufferDataUsage::UseEverything => EntryResource::Buffer { buffer_ptr, offset: 0, size: None },
                        BufferDataUsage::UseSegment { offset, size } =>
                            EntryResource::Buffer { buffer_ptr, offset: offset as u64, size: Some(size as u64) },
                    };
                    entries.push(BindGroupEntryPlan { binding: (binding + 200) as u32, resource });
                },
            }
            proof {
                assert(group@.take(bi + 1).drop_last() =~= group@.take(bi as int));
                assert(entries@ =~= e0 + binding_entries(b));
                assert(entries@ =~= before + bindings_entries(group@.take(bi + 1)));
            }
            bi = bi + 1;
        }
        proof {
            assert(group@.take(group@.len() as int) =~= group@);
            assert(gs.take(gi + 1).drop_last() =~= gs.take(gi as int));
            assert(gs.take(gi + 1).last() == gs[gi as int]);
        }
        gi = gi + 1;
    }
    proof {
        assert(gs.take(groups@.len() as int) =~= gs);
    }
    entries
}

/// Computes the bind group entries for the bindings of all `groups`, in
/// order: a texture at its slot and its sampler at slot + 100, a buffer at
/// slot + 200; of entries that share a binding number the first stays.
/// `None` if there are no entries (then no bind group is made).
pub fn plan_bind_group(groups: &[Vec<ResourceBinding>]) -> (r: Option<Vec<BindGroupEntryPlan>>)
    requires
        forall|g: int, i: int| 0 <= g < groups@.len() && 0 <= i < groups@[g]@.len() ==> binding_plannable(#[trigger] groups@[g]@[i]),
    ensures
        match r {
            Some(v) => v@ == dedup_bindings(groups_entries(groups@.map_values(|g: Vec<ResourceBinding>| g@)))
                && v@.len() > 0
                && forall|i: int, j: int| 0 <= i < j < v@.len() ==> v@[i].binding != v@[j].binding,
            None => groups_entries(groups@.map_values(|g: Vec<ResourceBinding>| g@)).len() == 0,
        },
{
    let entries = collect_entries(groups);
    proof {
        lemma_dedup_bindings(entries@);
    }
    let deduped = dedup_entries(entries.as_slice());
    if deduped.len() == 0 {
        None
    } else {
        Some(deduped)
    }
}

/// Whether planning the bind group of `groups` drops an entry: whether two
/// of its entries share a binding number. A debug build treats that as a
/// broken invariant.
pub fn bind_group_drops_entries(groups: &[Vec<ResourceBinding>]) -> (r: bool)
    requires
        forall|g: int, i: int| 0 <= g < groups@.len() && 0 <= i < groups@[g]@.len() ==> binding_plannable(#[trigger] groups@[g]@[i]),
    ensures
        r == (dedup_bindings(groups_entries(groups@.map_values(|g: Vec<ResourceBinding>| g@))).len()
            != groups_entries(groups@.map_values(|g: Vec<ResourceBinding>| g@)).len()),
        r == !entry_bindings_distinct(groups_entries(groups@.map_values(|g: Vec<ResourceBinding>| g@))),
{
    let entries = collect_entries(groups);
    proof {
        lemma_dedup_keeps_all_iff_distinct(entries@);
    }
    let deduped = dedup_entries(entries.as_slice());
    deduped.len() != entries.len()
}

/// No two entries share a binding number.
pub open spec fn entry_bindings_distinct(es: Seq<BindGroupEntryPlan>) -> bool {
    forall|i: int, j: int| 0 <= i < j < es.len() ==> es[i].binding != es[j].binding
}

/// Law: deduplication keeps every entry exactly when no two entries share a
/// binding number, and then it changes nothing.
pub proof fn lemma_dedup_keeps_all_iff_distinct(es: Seq<BindGroupEntryPlan>)
    ensures
        dedup_bindings(es).len() == es.len() <==> entry_bindings_distinct(es),
        entry_bindings_distinct(es) ==> dedup_bindings(es) == es,
        dedup_bindings(es).len() <= es.len(),
    decreases es.len(),
{
    if es.len() > 0 {
        let p = es.drop_last();
        let e = es.last();
        lemma_dedup_keeps_all_iff_distinct(p);
        lemma_dedup_bindings(p);
        let d = dedup_bindings(p);
        if entry_bindings_distinct(es) {
            assert(entry_bindings_distinct(p)) by {
                assert forall|i: int, j: int| 0 <= i < j < p.len() implies p[i].binding != p[j].binding by {
                    assert(p[i] == es[i] && p[j] == es[j]);
                }
            }
            if binding_in(d, e.binding) {
                let k = choose|k: int| 0 <= k < d.len() && #[trigger] d[k].binding == e.binding;
                assert(d[k] == p[k]);
                assert(es[k] == p[k]);
                assert(es[es.len() - 1] == e);
            }
            assert(dedup_bindings(es) =~= es);
        } else {
            if !binding_in(d, e.binding) && dedup_bindings(es).len() == es.len() {
                // then d.len() == p.len(), so p is distinct and d == p
                assert(d == p);
                let (i, j) = choose|i: int, j: int| 0 <= i < j < es.len() && es[i].binding == es[j].binding;
                if j < p.len() {
                    assert(p[i] == es[i] && p[j] == es[j]);
                } else {
                    assert(es[i] == p[i]);
                    assert(binding_in(d, e.binding)) by {
                        assert(d[i].binding == e.binding);
                    }
                }
            }
        }
    }
}

/// The row pitch of a texture readback buffer: the texel row size, at least 256 bytes.
pub fn readback_row_pitch(width: u32, bytes_per_texel: u32) -> (r: u32)
    requires
        width * bytes_per_texel <= u32::MAX,
    ensures
        r == if width * bytes_per_texel >= 256 { (width * bytes_per_texel) as u32 } else { 256u32 },
{
    let row: u32 = width * bytes_per_texel;
    if row >= 256 { row } else { 256 }
}

/// Law: with shader slots below 100, the wgpu binding numbers of textures,
/// samplers and buffers never collide, whatever the slots.
pub proof fn lemma_slots_disjoint(t: int, s: int, b: int)
    requires
        0 <= t < 100,
        0 <= s < 100,
        0 <= b < 100,
    ensures
        texture_slot(t) != sampler_slot(s),
        texture_slot(t) != buffer_slot(b),
        sampler_slot(s) != buffer_slot(b),
{
}

} // verus!
