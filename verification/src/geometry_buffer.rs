//! Decisions of the wgpu geometry buffer: the vertex format of each
//! attribute and the layout of each vertex buffer.
use vstd::prelude::*;

verus! {

/// Component type of a vertex attribute (Fyrox's `AttributeKind`).
#[derive(Debug, Clone, Copy, PartialEq, Eq, Hash, Structural)]
pub enum AttributeKind {
    Float,
    UnsignedByte,
    UnsignedShort,
    UnsignedInt,
}

/// Size in bytes of one component: 4 for `f32` and `u32`, 2 for `u16`, 1 for `u8`.
pub open spec fn spec_attribute_size(kind: AttributeKind) -> usize {
    match kind {
        AttributeKind::Float => 4,
        AttributeKind::UnsignedByte => 1,
        AttributeKind::UnsignedShort => 2,
        AttributeKind::UnsignedInt => 4,
    }
}

impl AttributeKind {
    /// Returns the size of one component in bytes.
    pub fn size(self) -> (r: usize)
        ensures
            r == spec_attribute_size(self),
    {
        match self {
            AttributeKind::Float => 4,
            AttributeKind::UnsignedByte => 1,
            AttributeKind::UnsignedShort => 2,
            AttributeKind::UnsignedInt => 4,
        }
    }
}

/// Vertex formats the backend uses (the same-named variants of wgpu's `VertexFormat`).
#[derive(Debug, Clone, Copy, PartialEq, Eq, Hash, Structural)]
pub enum VertexFormat {
    Float32,
    Float32x2,
    Float32x3,
    Float32x4,
    Uint8x4,
    Uint16x2,
    Uint16x4,
    Uint32,
    Uint32x2,
    Uint32x3,
    Uint32x4,
}

/// Number of components of a vertex format.
pub open spec fn format_components(f: VertexFormat) -> nat {
    match f {
        VertexFormat::Float32 | VertexFormat::Uint32 => 1,
        VertexFormat::Float32x2 | VertexFormat::Uint16x2 | VertexFormat::Uint32x2 => 2,
        VertexFormat::Float32x3 | VertexFormat::Uint32x3 => 3,
        VertexFormat::Float32x4 | VertexFormat::Uint8x4 | VertexFormat::Uint16x4 | VertexFormat::Uint32x4 => 4,
    }
}

/// Component type of a vertex format: 32-bit floats, or unsigned integers
/// of 8, 16 or 32 bits.
pub open spec fn format_component_kind(f: VertexFormat) -> AttributeKind {
    match f {
        VertexFormat::Float32 | VertexFormat::Float32x2 | VertexFormat::Float32x3 | VertexFormat::Float32x4 =>
            AttributeKind::Float,
        VertexFormat::Uint8x4 => AttributeKind::UnsignedByte,
        VertexFormat::Uint16x2 | VertexFormat::Uint16x4 => AttributeKind::UnsignedShort,
        VertexFormat::Uint32 | VertexFormat::Uint32x2 | VertexFormat::Uint32x3 | VertexFormat::Uint32x4 =>
            AttributeKind::UnsignedInt,
    }
}

/// Size in bytes of one vertex of a format, as wgpu gives it: 4 bytes per
/// 32-bit component, 2 per 16-bit one, 1 per 8-bit one.
pub open spec fn format_size(f: VertexFormat) -> nat {
    match f {
        VertexFormat::Float32 | VertexFormat::Uint32 => 4,
        VertexFormat::Float32x2 | VertexFormat::Uint32x2 => 8,
        VertexFormat::Float32x3 | VertexFormat::Uint32x3 => 12,
        VertexFormat::Float32x4 | VertexFormat::Uint32x4 => 16,
        VertexFormat::Uint8x4 => 4,
        VertexFormat::Uint16x2 => 4,
        VertexFormat::Uint16x4 => 8,
    }
}

/// Some vertex format has `component_count` components of `kind`.
pub open spec fn has_vertex_format(kind: AttributeKind, component_count: usize) -> bool {
    exists|f: VertexFormat| format_components(f) == component_count && #[trigger] format_component_kind(f) == kind
}

/// The format of an attribute of `component_count` components of `kind`;
/// combinations wgpu has no format for fall back to `Float32x4`.
pub open spec fn spec_attribute_format(kind: AttributeKind, component_count: usize) -> VertexFormat {
    match (kind, component_count) {
        (AttributeKind::Float, 1) => VertexFormat::Float32,
        (AttributeKind::Float, 2) => VertexFormat::Float32x2,
        (AttributeKind::Float, 3) => VertexFormat::Float32x3,
        (AttributeKind::Float, 4) => VertexFormat::Float32x4,
        (AttributeKind::UnsignedByte, 4) => VertexFormat::Uint8x4,
        (AttributeKind::UnsignedShort, 2) => VertexFormat::Uint16x2,
        (AttributeKind::UnsignedShort, 4) => VertexFormat::Uint16x4,
        (AttributeKind::UnsignedInt, 1) => VertexFormat::Uint32,
        (AttributeKind::UnsignedInt, 2) => VertexFormat::Uint32x2,
        (AttributeKind::UnsignedInt, 3) => VertexFormat::Uint32x3,
        (AttributeKind::UnsignedInt, 4) => VertexFormat::Uint32x4,
        _ => VertexFormat::Float32x4,
    }
}

/// Maps an attribute's component type and count to a vertex format.
pub fn attribute_format(kind: AttributeKind, cc: usize) -> (r: VertexFormat)
    ensures
        r == spec_attribute_format(kind, cc),
        has_vertex_format(kind, cc) ==> format_components(r) == cc && format_component_kind(r) == kind
            && format_size(r) == spec_attribute_size(kind) * cc,
{
    match (kind, cc) {
        (AttributeKind::Float, 1) => VertexFormat::Float32,
        (AttributeKind::Float, 2) => VertexFormat::Float32x2,
        (AttributeKind::Float, 3) => VertexFormat::Float32x3,
        (AttributeKind::Float, 4) => VertexFormat::Float32x4,
        (AttributeKind::UnsignedByte, 4) => VertexFormat::Uint8x4,
        (AttributeKind::UnsignedShort, 2) => VertexFormat::Uint16x2,
        (AttributeKind::UnsignedShort, 4) => VertexFormat::Uint16x4,
        (AttributeKind::UnsignedInt, 1) => VertexFormat::Uint32,
        (AttributeKind::UnsignedInt, 2) => VertexFormat::Uint32x2,
        (AttributeKind::UnsignedInt, 3) => VertexFormat::Uint32x3,
        (AttributeKind::UnsignedInt, 4) => VertexFormat::Uint32x4,
        _ => VertexFormat::Float32x4,
    }
}

/// Law: when a vertex format of `component_count` components of `kind`
/// exists, the attribute's format is that one: it has exactly
/// `component_count` components of `kind`'s type, and its size is the
/// component size times the count (the size its packed offset advances by).
/// Otherwise the format is `Float32x4`.
pub proof fn lemma_attribute_format_shape(kind: AttributeKind, component_count: usize)
    ensures
        has_vertex_format(kind, component_count) ==> {
            &&& format_components(spec_attribute_format(kind, component_count)) == component_count
            &&& format_component_kind(spec_attribute_format(kind, component_count)) == kind
            &&& format_size(spec_attribute_format(kind, component_count)) == spec_attribute_size(kind) * component_count
        },
        !has_vertex_format(kind, component_count) ==> spec_attribute_format(kind, component_count)
            == VertexFormat::Float32x4,
{
    if has_vertex_format(kind, component_count) {
        let f = choose|f: VertexFormat| format_components(f) == component_count && #[trigger] format_component_kind(f) == kind;
        match f {
            VertexFormat::Float32 => {},
            VertexFormat::Float32x2 => {},
            VertexFormat::Float32x3 => {},
            VertexFormat::Float32x4 => {},
            VertexFormat::Uint8x4 => {},
            VertexFormat::Uint16x2 => {},
            VertexFormat::Uint16x4 => {},
            VertexFormat::Uint32 => {},
            VertexFormat::Uint32x2 => {},
            VertexFormat::Uint32x3 => {},
            VertexFormat::Uint32x4 => {},
        }
    } else {
        // No format has these components: the search over all formats is empty.
        assert(!(format_components(VertexFormat::Float32) == component_count && format_component_kind(VertexFormat::Float32) == kind));
        assert(!(format_components(VertexFormat::Float32x2) == component_count && format_component_kind(VertexFormat::Float32x2) == kind));
        assert(!(format_components(VertexFormat::Float32x3) == component_count && format_component_kind(VertexFormat::Float32x3) == kind));
        assert(!(format_components(VertexFormat::Float32x4) == component_count && format_component_kind(VertexFormat::Float32x4) == kind));
        assert(!(format_components(VertexFormat::Uint8x4) == component_count && format_component_kind(VertexFormat::Uint8x4) == kind));
        assert(!(format_components(VertexFormat::Uint16x2) == component_count && format_component_kind(VertexFormat::Uint16x2) == kind));
        assert(!(format_components(VertexFormat::Uint16x4) == component_count && format_component_kind(VertexFormat::Uint16x4) == kind));
        assert(!(format_components(VertexFormat::Uint32) == component_count && format_component_kind(VertexFormat::Uint32) == kind));
        assert(!(format_components(VertexFormat::Uint32x2) == component_count && format_component_kind(VertexFormat::Uint32x2) == kind));
        assert(!(format_components(VertexFormat::Uint32x3) == component_count && format_component_kind(VertexFormat::Uint32x3) == kind));
        assert(!(format_components(VertexFormat::Uint32x4) == component_count && format_component_kind(VertexFormat::Uint32x4) == kind));
    }
}

/// A vertex attribute of a geometry buffer (Fyrox's `AttributeDefinition`).
#[derive(Debug, Clone, Copy, PartialEq, Eq, Hash, Structural)]
pub struct AttributeDefinition {
    /// Shader location of the attribute.
    pub location: u32,
    /// Component type.
    pub kind: AttributeKind,
    /// Number of components.
    pub component_count: usize,
    /// Whether integer components are normalized (not used by this backend).
    pub normalized: bool,
    /// Instancing divisor; nonzero makes the buffer per-instance.
    pub divisor: u32,
}

/// Whether a buffer advances per vertex or per instance.
#[derive(Debug, Clone, Copy, PartialEq, Eq, Hash, Structural)]
pub enum VertexStepMode {
    Vertex,
    Instance,
}

/// One attribute of a vertex buffer layout (wgpu's `VertexAttribute`).
#[derive(Debug, Clone, Copy, PartialEq, Eq, Hash, Structural)]
pub struct VertexAttribute {
    pub format: VertexFormat,
    pub offset: u64,
    pub shader_location: u32,
}

/// Layout of one vertex buffer (wgpu's `VertexBufferLayout`).
#[derive(Debug, Clone, PartialEq, Eq)]
pub struct VertexBufferLayout {
    pub array_stride: u64,
    pub step_mode: VertexStepMode,
    pub attributes: Vec<VertexAttribute>,
}

/// Byte offset of attribute `i`: the sizes of the attributes before it, packed.
pub open spec fn attribute_offset(attrs: Seq<AttributeDefinition>, i: int) -> int
    decreases i,
{
    if i <= 0 {
        0
    } else {
        attribute_offset(attrs, i - 1) + spec_attribute_size(attrs[i - 1].kind) * attrs[i - 1].component_count
    }
}

/// A buffer steps per instance exactly when one of its attributes has a divisor.
pub open spec fn spec_step_mode(attrs: Seq<AttributeDefinition>) -> VertexStepMode {
    if exists|i: int| 0 <= i < attrs.len() && #[trigger] attrs[i].divisor > 0 {
        VertexStepMode::Instance
    } else {
        VertexStepMode::Vertex
    }
}

/// Whether the layout of a buffer with these attributes can be computed: every
/// attribute's size and the total of the sizes fit.
pub fn vertex_layout_fits(attrs: &[AttributeDefinition]) -> (r: bool)
    ensures
        r == (attribute_offset(attrs@, attrs@.len() as int) <= u64::MAX
            && forall|i: int| 0 <= i < attrs@.len() ==> spec_attribute_size((#[trigger] attrs@[i]).kind) * attrs@[i].component_count <= usize::MAX),
{
    let mut total: u64 = 0;
    let mut i: usize = 0;
    while i < attrs.len()
        invariant
            0 <= i <= attrs@.len(),
            total == attribute_offset(attrs@, i as int),
            forall|k: int| 0 <= k < i ==> spec_attribute_size((#[trigger] attrs@[k]).kind) * attrs@[k].component_count <= usize::MAX,
        decreases attrs@.len() - i,
    {
        let a = attrs[i];
        let size = match a.kind.size().checked_mul(a.component_count) {
            Some(size) => size,
            None => {
                return false;
            },
        };
        proof {
            lemma_offset_monotone(attrs@, i as int + 1, attrs@.len() as int);
        }
        match total.checked_add(size as u64) {
            Some(t) => {
                total = t;
            },
            None => {
                return false;
            },
        }
        i = i + 1;
    }
    true
}

/// Computes the layout of a vertex buffer with elements of `element_size`
/// bytes and the given attributes: packed attributes at increasing offsets.
pub fn vertex_buffer_layout(attrs: &[AttributeDefinition], element_size: usize) -> (r: VertexBufferLayout)
    requires
        attribute_offset(attrs@, attrs@.len() as int) <= u64::MAX,
        forall|i: int| 0 <= i < attrs@.len() ==> spec_attribute_size((#[trigger] attrs@[i]).kind) * attrs@[i].component_count <= usize::MAX,
    ensures
        r.array_stride == element_size as u64,
        r.step_mode == spec_step_mode(attrs@),
        r.attributes@.len() == attrs@.len(),
        forall|i: int| 0 <= i < attrs@.len() ==> (#[trigger] r.attributes@[i]) == (VertexAttribute {
            format: spec_attribute_format(attrs@[i].kind, attrs@[i].component_count),
            offset: attribute_offset(attrs@, i) as u64,
            shader_location: attrs@[i].location,
        }),
{
    let mut attributes: Vec<VertexAttribute> = Vec::new();
    let mut offset: u64 = 0;
    let mut instanced = false;
    let mut i: usize = 0;
    while i < attrs.len()
        invariant
            0 <= i <= attrs@.len(),
            attribute_offset(attrs@, attrs@.len() as int) <= u64::MAX,
            forall|k: int| 0 <= k < attrs@.len() ==> spec_attribute_size((#[trigger] attrs@[k]).kind) * attrs@[k].component_count <= usize::MAX,
            offset == attribute_offset(attrs@, i as int),
            attributes@.len() == i,
            instanced == exists|k: int| 0 <= k < i && #[trigger] attrs@[k].divisor > 0,
            forall|k: int| 0 <= k < i ==> (#[trigger] attributes@[k]) == (VertexAttribute {
                format: spec_attribute_format(attrs@[k].kind, attrs@[k].component_count),
                offset: attribute_offset(attrs@, k) as u64,
                shader_location: attrs@[k].location,
            }),
        decreases attrs@.len() - i,
    {
        let a = attrs[i];
        attributes.push(VertexAttribute { format: attribute_format(a.kind, a.component_count), offset, shader_location: a.location });
        proof {
            lemma_offset_monotone(attrs@, i as int + 1, attrs@.len() as int);
        }
        let size = a.kind.size();
        let step: u64 = (size * a.component_count) as u64;
        offset = offset + step;
        if a.divisor > 0 {
            instanced = true;
        }
        proof {
            if !instanced {
                assert(forall|k: int| 0 <= k < i + 1 ==> !(#[trigger] attrs@[k].divisor > 0));
            }
        }
        i = i + 1;
    }
    let step_mode = if instanced { VertexStepMode::Instance } else { VertexStepMode::Vertex };
    VertexBufferLayout { array_stride: element_size as u64, step_mode, attributes }
}

proof fn lemma_offset_monotone(attrs: Seq<AttributeDefinition>, i: int, j: int)
    requires
        0 <= i <= j,
    ensures
        attribute_offset(attrs, i) <= attribute_offset(attrs, j),
    decreases j - i,
{
    if i < j {
        lemma_offset_monotone(attrs, i, j - 1);
        assert(spec_attribute_size(attrs[j - 1].kind) * attrs[j - 1].component_count >= 0) by (nonlinear_arith)
            requires spec_attribute_size(attrs[j - 1].kind) >= 0, attrs[j - 1].component_count >= 0;
    }
}

} // verus!
