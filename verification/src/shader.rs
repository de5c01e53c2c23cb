//! Shader programs: the check of a program's resource list, the bind group
//! layout its resources ask for, and the compilation of GLSL to SPIR-V with
//! naga.
//!
//! A resource bound at slot `b` takes these wgpu binding numbers: the texture
//! at `b`, its sampler at `b + 100`, a property group's uniform buffer at
//! `b + 200`; the generated declarations, the layout and the bind groups all
//! use the same numbers.
use crate::bind_group_cache::ResourceBinding;
use crate::glsl::{glsl_parse_failure, glsl_spirv, glsl_validation_failure, parse_glsl, validate_glsl, write_glsl_spirv};
use crate::framebuffer::{binding_entries, buffer_slot, sampler_slot, texture_slot};
use crate::program::{
    spec_sampler_constructor_name, spec_vulkan_texture_type,
    declared_source_of, definitions_rewrite_cleanly, definitions_rewrite_cleanly_of, preprocess_shader, prepare_source, resource_slots_fit, spec_declared_source,
    spec_prepare_source, spec_preprocess_shader, SamplerKind, ShaderKind, ShaderResourceDefinition,
    ShaderResourceKind,
};
use crate::shader_lint::{check_srgb_conversions, srgb_warnings, string_views};
use crate::text::{chars_of, decimal, decimal_of, push_all, same_chars, string_of};
use vstd::prelude::*;

verus! {

/// Errors of shader creation (the cases of Fyrox's `FrameworkError` that
/// shader creation gives).
#[derive(Debug, Clone, PartialEq)]
pub enum ShaderError {
    /// The shader did not compile.
    CompilationFailed { shader_name: String, error_message: String },
    /// Any other failure, with its message.
    Custom(String),
}

// ---------------------------------------------------------------------------
// Resource list check
// ---------------------------------------------------------------------------

/// Both resources are textures, or both are property groups.
pub open spec fn same_kind(a: ShaderResourceDefinition, b: ShaderResourceDefinition) -> bool {
    (a.kind is Texture) == (b.kind is Texture)
}

/// Two distinct entries of the list clash: they are of the same kind and share
/// a binding slot or a name.
pub open spec fn conflict(rs: Seq<ShaderResourceDefinition>, i: int, j: int) -> bool {
    i != j && same_kind(rs[i], rs[j]) && (rs[i].binding == rs[j].binding || rs[i].name@ == rs[j].name@)
}

/// The first `j` at or after `from` with which entry `i` clashes.
pub open spec fn first_in_row(rs: Seq<ShaderResourceDefinition>, i: int, from: int) -> Option<int>
    decreases rs.len() - from,
{
    if from < 0 || from >= rs.len() {
        None
    } else if conflict(rs, i, from) {
        Some(from)
    } else {
        first_in_row(rs, i, from + 1)
    }
}

/// The first clashing pair `(i, j)` with `i` at or after `from`, the pairs
/// taken row by row (all `j` of one `i` before the next `i`).
pub open spec fn first_conflict(rs: Seq<ShaderResourceDefinition>, from: int) -> Option<(int, int)>
    decreases rs.len() - from,
{
    if from < 0 || from >= rs.len() {
        None
    } else {
        match first_in_row(rs, from, 0) {
            Some(j) => Some((from, j)),
            None => first_conflict(rs, from + 1),
        }
    }
}

/// The message for a clashing pair: a shared slot is reported before a shared
/// name.
pub open spec fn conflict_message(r: ShaderResourceDefinition, o: ShaderResourceDefinition) -> Seq<char> {
    if r.binding == o.binding {
        "Resource "@ + r.name@ + " and "@ + o.name@ + " same binding "@ + decimal(r.binding as nat)
    } else {
        "Duplicate resource name "@ + r.name@
    }
}

proof fn lemma_first_in_row(rs: Seq<ShaderResourceDefinition>, i: int, from: int)
    requires
        0 <= from,
    ensures
        first_in_row(rs, i, from) is None <==> forall|j: int| from <= j < rs.len() ==> !conflict(rs, i, j),
        first_in_row(rs, i, from) matches Some(j) ==> from <= j < rs.len() && conflict(rs, i, j),
    decreases rs.len() - from,
{
    if from < rs.len() {
        lemma_first_in_row(rs, i, from + 1);
    }
}

proof fn lemma_first_conflict(rs: Seq<ShaderResourceDefinition>, from: int)
    requires
        0 <= from,
    ensures
        first_conflict(rs, from) is None <==>
            forall|i: int, j: int| from <= i < rs.len() && 0 <= j < rs.len() ==> !conflict(rs, i, j),
        first_conflict(rs, from) matches Some((i, j)) ==> from <= i < rs.len() && 0 <= j < rs.len() && conflict(rs, i, j),
    decreases rs.len() - from,
{
    if from < rs.len() {
        lemma_first_in_row(rs, from, 0);
        lemma_first_conflict(rs, from + 1);
        if first_in_row(rs, from, 0) is None {
            assert forall|i: int, j: int| from <= i < rs.len() && 0 <= j < rs.len() && first_conflict(rs, from + 1) is None
                implies !conflict(rs, i, j) by {
                if i == from {
                } else {
                    assert(from + 1 <= i);
                }
            }
        }
    }
}

/// Law: the resource list check passes exactly when no two distinct entries
/// of the same kind share a slot or a name, and a reported pair does clash.
pub proof fn lemma_resource_check(rs: Seq<ShaderResourceDefinition>)
    ensures
        first_conflict(rs, 0) is None <==> forall|i: int, j: int| 0 <= i < rs.len() && 0 <= j < rs.len() ==> !conflict(rs, i, j),
        first_conflict(rs, 0) matches Some((i, j)) ==> 0 <= i < rs.len() && 0 <= j < rs.len() && conflict(rs, i, j),
{
    lemma_first_conflict(rs, 0);
}

fn same_kind_of(a: &ShaderResourceDefinition, b: &ShaderResourceDefinition) -> (r: bool)
    ensures
        r == same_kind(*a, *b),
{
    let at = match &a.kind {
        ShaderResourceKind::Texture { .. } => true,
        ShaderResourceKind::PropertyGroup(_) => false,
    };
    let bt = match &b.kind {
        ShaderResourceKind::Texture { .. } => true,
        ShaderResourceKind::PropertyGroup(_) => false,
    };
    at == bt
}

fn conflict_message_of(r: &ShaderResourceDefinition, o: &ShaderResourceDefinition) -> (m: String)
    ensures
        m@ == conflict_message(*r, *o),
{
    let mut v: Vec<char> = Vec::new();
    if r.binding == o.binding {
        push_all(&mut v, chars_of("Resource ").as_slice());
        push_all(&mut v, chars_of(r.name.as_str()).as_slice());
        push_all(&mut v, chars_of(" and ").as_slice());
        push_all(&mut v, chars_of(o.name.as_str()).as_slice());
        push_all(&mut v, chars_of(" same binding ").as_slice());
        push_all(&mut v, decimal_of(r.binding).as_slice());
    } else {
        push_all(&mut v, chars_of("Duplicate resource name ").as_slice());
        push_all(&mut v, chars_of(r.name.as_str()).as_slice());
    }
    string_of(v.as_slice())
}

/// Checks a shader's resource list: no two textures, and no two property
/// groups, may share a binding slot or a name. The first clashing pair (in
/// row order) is reported, its slot before its name.
pub fn validate_resources(resources: &[ShaderResourceDefinition]) -> (r: Result<(), ShaderError>)
    ensures
        match first_conflict(resources@, 0) {
            None => r is Ok,
            Some((i, j)) => r matches Err(ShaderError::Custom(m)) && m@ == conflict_message(resources@[i], resources@[j]),
        },
{
    let ghost rs = resources@;
    let n = resources.len();
    let mut i: usize = 0;
    while i < n
        invariant
            0 <= i <= n,
            n == rs.len(),
            rs == resources@,
            first_conflict(rs, 0) == first_conflict(rs, i as int),
        decreases n - i,
    {
        let mut j: usize = 0;
        while j < n
            invariant
                0 <= j <= n,
                i < n,
                n == rs.len(),
                rs == resources@,
                first_conflict(rs, 0) == first_conflict(rs, i as int),
                first_in_row(rs, i as int, 0) == first_in_row(rs, i as int, j as int),
            decreases n - j,
        {
            let a = &resources[i];
            let b = &resources[j];
            if i != j && same_kind_of(a, b) {
                if a.binding == b.binding {
                    return Err(ShaderError::Custom(conflict_message_of(a, b)));
                }
                let an = chars_of(a.name.as_str());
                let bn = chars_of(b.name.as_str());
                if same_chars(an.as_slice(), bn.as_slice()) {
                    return Err(ShaderError::Custom(conflict_message_of(a, b)));
                }
            }
            j = j + 1;
        }
        i = i + 1;
    }
    Ok(())
}

// ---------------------------------------------------------------------------
// Bind group layout
// ---------------------------------------------------------------------------

/// How a texture is sampled (`wgpu::TextureSampleType`, the cases used).
#[derive(Debug, Clone, Copy, PartialEq, Eq, Structural)]
pub enum TextureSampleType {
    Float { filterable: bool },
    Uint,
}

/// Dimension of a texture view (`wgpu::TextureViewDimension`, the cases used).
#[derive(Debug, Clone, Copy, PartialEq, Eq, Structural)]
pub enum TextureViewDimension {
    D1,
    D2,
    D3,
    Cube,
}

/// What a bind group layout entry holds. All entries are visible to the
/// vertex and fragment stages, textures are not multisampled, and buffers
/// have no dynamic offset.
#[derive(Debug, Clone, Copy, PartialEq, Eq, Structural)]
pub enum LayoutEntryKind {
    Texture { sample_type: TextureSampleType, view_dimension: TextureViewDimension },
    FilteringSampler,
    UniformBuffer,
}

/// One entry of a bind group layout.
#[derive(Debug, Clone, Copy, PartialEq, Eq, Structural)]
pub struct LayoutEntry {
    pub binding: u32,
    pub kind: LayoutEntryKind,
}

/// The view dimension of a sampler kind.
pub open spec fn view_dimension(kind: SamplerKind) -> TextureViewDimension {
    match kind {
        SamplerKind::Sampler1D | SamplerKind::USampler1D => TextureViewDimension::D1,
        SamplerKind::Sampler2D | SamplerKind::USampler2D => TextureViewDimension::D2,
        SamplerKind::Sampler3D | SamplerKind::USampler3D => TextureViewDimension::D3,
        SamplerKind::SamplerCube | SamplerKind::USamplerCube => TextureViewDimension::Cube,
    }
}

/// The view dimension a GLSL texture or sampler type name states by its
/// suffix: `…1D`, `…2D`, `…3D` or `…Cube`.
pub open spec fn type_name_dimension(t: Seq<char>) -> Option<TextureViewDimension> {
    let n = t.len() as int;
    if n >= 4 && t[n - 4] == 'C' && t[n - 3] == 'u' && t[n - 2] == 'b' && t[n - 1] == 'e' {
        Some(TextureViewDimension::Cube)
    } else if n >= 2 && t[n - 1] == 'D' && t[n - 2] == '1' {
        Some(TextureViewDimension::D1)
    } else if n >= 2 && t[n - 1] == 'D' && t[n - 2] == '2' {
        Some(TextureViewDimension::D2)
    } else if n >= 2 && t[n - 1] == 'D' && t[n - 2] == '3' {
        Some(TextureViewDimension::D3)
    } else {
        None
    }
}

/// Law: a texture layout entry's view dimension is the dimensionality that
/// the kind's GLSL types name, both the declared texture type and the
/// combined sampler type (cube kinds give `Cube`, whether signed or not).
pub proof fn lemma_view_dimension_matches_glsl_types(kind: SamplerKind)
    ensures
        type_name_dimension(spec_vulkan_texture_type(kind)) == Some(view_dimension(kind)),
        type_name_dimension(spec_sampler_constructor_name(kind)) == Some(view_dimension(kind)),
{
    reveal_strlit("texture1D");
    reveal_strlit("texture2D");
    reveal_strlit("texture3D");
    reveal_strlit("textureCube");
    reveal_strlit("utexture1D");
    reveal_strlit("utexture2D");
    reveal_strlit("utexture3D");
    reveal_strlit("utextureCube");
    reveal_strlit("sampler1D");
    reveal_strlit("sampler2D");
    reveal_strlit("sampler3D");
    reveal_strlit("samplerCube");
    reveal_strlit("usampler1D");
    reveal_strlit("usampler2D");
    reveal_strlit("usampler3D");
    reveal_strlit("usamplerCube");
}

/// The sample type of a sampler kind: unsigned integer for the `usampler`
/// kinds, filterable float otherwise.
pub open spec fn sample_type(kind: SamplerKind) -> TextureSampleType {
    match kind {
        SamplerKind::USampler1D | SamplerKind::USampler2D | SamplerKind::USampler3D | SamplerKind::USamplerCube =>
            TextureSampleType::Uint,
        _ => TextureSampleType::Float { filterable: true },
    }
}

/// The layout entries of one resource: a texture and its filtering sampler,
/// or the uniform buffer of a property group (an empty group too).
pub open spec fn layout_entries_of(r: ShaderResourceDefinition) -> Seq<LayoutEntry> {
    match r.kind {
        ShaderResourceKind::Texture { kind } => seq![
            LayoutEntry {
                binding: texture_slot(r.binding as int) as u32,
                kind: LayoutEntryKind::Texture { sample_type: sample_type(kind), view_dimension: view_dimension(kind) },
            },
            LayoutEntry { binding: sampler_slot(r.binding as int) as u32, kind: LayoutEntryKind::FilteringSampler },
        ],
        ShaderResourceKind::PropertyGroup(_) => seq![
            LayoutEntry { binding: buffer_slot(r.binding as int) as u32, kind: LayoutEntryKind::UniformBuffer },
        ],
    }
}

/// The layout entries of a resource list, resource after resource.
pub open spec fn layout_entries(rs: Seq<ShaderResourceDefinition>) -> Seq<LayoutEntry>
    decreases rs.len(),
{
    if rs.len() == 0 {
        Seq::empty()
    } else {
        layout_entries(rs.drop_last()) + layout_entries_of(rs.last())
    }
}

/// The slot numbers of a resource's layout entries fit in `usize`.
pub open spec fn layout_slots_fit(r: ShaderResourceDefinition) -> bool {
    match r.kind {
        ShaderResourceKind::Texture { .. } => r.binding + 100 <= usize::MAX,
        ShaderResourceKind::PropertyGroup(_) => r.binding + 200 <= usize::MAX,
    }
}

/// Whether the layout slot numbers of every resource fit.
pub fn layout_slots_fit_of(resources: &[ShaderResourceDefinition]) -> (r: bool)
    ensures
        r == forall|i: int| 0 <= i < resources@.len() ==> layout_slots_fit(#[trigger] resources@[i]),
{
    let mut i: usize = 0;
    while i < resources.len()
        invariant
            0 <= i <= resources@.len(),
            forall|k: int| 0 <= k < i ==> layout_slots_fit(#[trigger] resources@[k]),
        decreases resources@.len() - i,
    {
        let r = &resources[i];
        let ok = match &r.kind {
            ShaderResourceKind::Texture { .. } => r.binding <= usize::MAX - 100,
            ShaderResourceKind::PropertyGroup(_) => r.binding <= usize::MAX - 200,
        };
        if !ok {
            assert(!layout_slots_fit(resources@[i as int]));
            return false;
        }
        i = i + 1;
    }
    true
}

fn view_dimension_of(kind: SamplerKind) -> (r: TextureViewDimension)
    ensures
        r == view_dimension(kind),
        type_name_dimension(spec_vulkan_texture_type(kind)) == Some(r),
{
    proof {
        lemma_view_dimension_matches_glsl_types(kind);
    }
    match kind {
        SamplerKind::Sampler1D | SamplerKind::USampler1D => TextureViewDimension::D1,
        SamplerKind::Sampler2D | SamplerKind::USampler2D => TextureViewDimension::D2,
        SamplerKind::Sampler3D | SamplerKind::USampler3D => TextureViewDimension::D3,
        SamplerKind::SamplerCube | SamplerKind::USamplerCube => TextureViewDimension::Cube,
    }
}

fn sample_type_of(kind: SamplerKind) -> (r: TextureSampleType)
    ensures
        r == sample_type(kind),
{
    match kind {
        SamplerKind::USampler1D | SamplerKind::USampler2D | SamplerKind::USampler3D | SamplerKind::USamplerCube =>
            TextureSampleType::Uint,
        _ => TextureSampleType::Float { filterable: true },
    }
}

/// The entries of the bind group layout of a program with these resources,
/// in resource order.
pub fn bind_group_layout_entries(resources: &[ShaderResourceDefinition]) -> (r: Vec<LayoutEntry>)
    requires
        forall|i: int| 0 <= i < resources@.len() ==> layout_slots_fit(#[trigger] resources@[i]),
    ensures
        r@ == layout_entries(resources@),
{
    let ghost rs = resources@;
    let mut out: Vec<LayoutEntry> = Vec::new();
    let mut i: usize = 0;
    assert(rs.take(0) =~= Seq::<ShaderResourceDefinition>::empty());
    while i < resources.len()
        invariant
            0 <= i <= rs.len(),
            rs == resources@,
            forall|k: int| 0 <= k < rs.len() ==> layout_slots_fit(#[trigger] rs[k]),
            out@ == layout_entries(rs.take(i as int)),
        decreases rs.len() - i,
    {
        assert(rs.take(i + 1).drop_last() =~= rs.take(i as int));
        assert(rs.take(i + 1).last() == rs[i as int]);
        let r = &resources[i];
        let ghost before = out@;
        match &r.kind {
            ShaderResourceKind::Texture { kind } => {
                out.push(LayoutEntry {
                    binding: r.binding as u32,
                    kind: LayoutEntryKind::Texture { sample_type: sample_type_of(*kind), view_dimension: view_dimension_of(*kind) },
                });
                out.push(LayoutEntry { binding: (r.binding + 100) as u32, kind: LayoutEntryKind::FilteringSampler });
            },
            ShaderResourceKind::PropertyGroup(_) => {
                out.push(LayoutEntry { binding: (r.binding + 200) as u32, kind: LayoutEntryKind::UniformBuffer });
            },
        }
        assert(out@ =~= before + layout_entries_of(rs[i as int]));
        i = i + 1;
    }
    assert(rs.take(rs.len() as int) =~= rs);
    out
}

/// Law: the layout of a resource list has, for each texture resource at slot
/// B, a texture entry at B with its kind's view dimension and sample type and
/// a filtering sampler at B + 100, and for each property group at B a uniform
/// buffer at B + 200; every entry is one of these. The sample type is
/// unsigned exactly for the `usampler` kinds.
pub proof fn lemma_layout_entries(rs: Seq<ShaderResourceDefinition>)
    ensures
        forall|i: int| 0 <= i < rs.len() ==> resource_laid_out(layout_entries(rs), #[trigger] rs[i]),
        forall|k: int| 0 <= k < layout_entries(rs).len() ==> exists|i: int| 0 <= i < rs.len()
            && (#[trigger] layout_entries_of(rs[i])).contains(#[trigger] layout_entries(rs)[k]),
        forall|kind: SamplerKind| (#[trigger] sample_type(kind) == TextureSampleType::Uint) <==> (kind
            == SamplerKind::USampler1D || kind == SamplerKind::USampler2D || kind == SamplerKind::USampler3D
            || kind == SamplerKind::USamplerCube),
{
    lemma_layout_covers(rs);
    lemma_layout_only(rs);
}

proof fn lemma_laid_out_extends(a: Seq<LayoutEntry>, b: Seq<LayoutEntry>, r: ShaderResourceDefinition)
    requires
        resource_laid_out(a, r),
    ensures
        resource_laid_out(a + b, r),
{
    match r.kind {
        ShaderResourceKind::Texture { kind } => {
            let t = LayoutEntry {
                binding: texture_slot(r.binding as int) as u32,
                kind: LayoutEntryKind::Texture { sample_type: sample_type(kind), view_dimension: view_dimension(kind) },
            };
            let sm = LayoutEntry { binding: sampler_slot(r.binding as int) as u32, kind: LayoutEntryKind::FilteringSampler };
            let j1 = choose|j: int| 0 <= j < a.len() && a[j] == t;
            let j2 = choose|j: int| 0 <= j < a.len() && a[j] == sm;
            assert((a + b)[j1] == t);
            assert((a + b)[j2] == sm);
        },
        ShaderResourceKind::PropertyGroup(_) => {
            let u = LayoutEntry { binding: buffer_slot(r.binding as int) as u32, kind: LayoutEntryKind::UniformBuffer };
            let j = choose|j: int| 0 <= j < a.len() && a[j] == u;
            assert((a + b)[j] == u);
        },
    }
}

proof fn lemma_layout_covers(rs: Seq<ShaderResourceDefinition>)
    ensures
        forall|i: int| 0 <= i < rs.len() ==> resource_laid_out(layout_entries(rs), #[trigger] rs[i]),
    decreases rs.len(),
{
    if rs.len() > 0 {
        let p = rs.drop_last();
        lemma_layout_covers(p);
        let a = layout_entries(p);
        let b = layout_entries_of(rs.last());
        assert(layout_entries(rs) == a + b);
        assert forall|i: int| 0 <= i < rs.len() implies resource_laid_out(a + b, #[trigger] rs[i]) by {
            if i < p.len() {
                assert(p[i] == rs[i]);
                lemma_laid_out_extends(a, b, p[i]);
            } else {
                assert(rs.last() == rs[i]);
                match rs[i].kind {
                    ShaderResourceKind::Texture { .. } => {
                        assert((a + b)[a.len() as int] == b[0]);
                        assert((a + b)[a.len() as int + 1] == b[1]);
                    },
                    ShaderResourceKind::PropertyGroup(_) => {
                        assert((a + b)[a.len() as int] == b[0]);
                    },
                }
            }
        }
    }
}

proof fn lemma_layout_only(rs: Seq<ShaderResourceDefinition>)
    ensures
        forall|k: int| 0 <= k < layout_entries(rs).len() ==> exists|i: int| 0 <= i < rs.len()
            && (#[trigger] layout_entries_of(rs[i])).contains(#[trigger] layout_entries(rs)[k]),
    decreases rs.len(),
{
    if rs.len() > 0 {
        let p = rs.drop_last();
        lemma_layout_only(p);
        let a = layout_entries(p);
        let b = layout_entries_of(rs.last());
        let all = layout_entries(rs);
        assert(all == a + b);
        assert forall|k: int| 0 <= k < all.len() implies exists|i: int| 0 <= i < rs.len()
            && (#[trigger] layout_entries_of(rs[i])).contains(#[trigger] all[k]) by {
            if k < a.len() {
                assert(all[k] == a[k]);
                let i = choose|i: int| 0 <= i < p.len() && (#[trigger] layout_entries_of(p[i])).contains(a[k]);
                assert(p[i] == rs[i]);
                assert(layout_entries_of(rs[i]).contains(all[k]));
            } else {
                assert(all[k] == b[k - a.len()]);
                assert(layout_entries_of(rs[rs.len() - 1]).contains(all[k]));
            }
        }
    }
}

/// The entries `es` lay out resource `r`: for a texture at slot B, a texture
/// entry at B with its kind's sample type and view dimension and a filtering
/// sampler at B + 100; for a property group at B, a uniform buffer at B + 200.
pub open spec fn resource_laid_out(es: Seq<LayoutEntry>, r: ShaderResourceDefinition) -> bool {
    match r.kind {
        ShaderResourceKind::Texture { kind } => {
            &&& es.contains(LayoutEntry {
                binding: texture_slot(r.binding as int) as u32,
                kind: LayoutEntryKind::Texture { sample_type: sample_type(kind), view_dimension: view_dimension(kind) },
            })
            &&& es.contains(LayoutEntry { binding: sampler_slot(r.binding as int) as u32, kind: LayoutEntryKind::FilteringSampler })
        },
        ShaderResourceKind::PropertyGroup(_) => es.contains(
            LayoutEntry { binding: buffer_slot(r.binding as int) as u32, kind: LayoutEntryKind::UniformBuffer },
        ),
    }
}

/// A resource of the shader interface and a binding made for it: a texture
/// for a texture, a buffer for a property group, at the same slot.
pub open spec fn binding_serves(r: ShaderResourceDefinition, b: ResourceBinding) -> bool {
    match b {
        ResourceBinding::Texture { binding, .. } => r.kind is Texture && binding == r.binding,
        ResourceBinding::Buffer { binding, .. } => r.kind is PropertyGroup && binding == r.binding,
    }
}

/// Law: the bind group entries made for a binding land on exactly the binding
/// numbers that the layout gives the resource it serves, in the same order.
pub proof fn lemma_layout_matches_bind_group(r: ShaderResourceDefinition, b: ResourceBinding)
    requires
        binding_serves(r, b),
    ensures
        layout_entries_of(r).len() == binding_entries(b).len(),
        forall|k: int| 0 <= k < layout_entries_of(r).len() ==>
            #[trigger] layout_entries_of(r)[k].binding == binding_entries(b)[k].binding,
{
}

// ---------------------------------------------------------------------------
// GLSL compilation
// ---------------------------------------------------------------------------

/// The step of compilation that failed.
#[derive(Debug, Clone, Copy, PartialEq, Eq, Structural)]
pub enum CompileStep {
    Parse,
    Validate,
    Emit,
}

/// The message of a failed compilation step of shader `name`.
pub open spec fn failure_message(step: CompileStep, name: Seq<char>, detail: Seq<char>) -> Seq<char> {
    match step {
        CompileStep::Parse => "Failed to parse GLSL for "@ + name + ":\n"@ + detail,
        CompileStep::Validate => "Naga validation failed for "@ + name + ": "@ + detail,
        CompileStep::Emit => "SPIR-V generation failed for "@ + name + ": "@ + detail,
    }
}

/// The error for a failed compilation step of shader `name`, with the
/// details that naga gave.
pub fn compilation_failure(step: CompileStep, name: &str, detail: &str) -> (e: ShaderError)
    ensures
        e matches ShaderError::CompilationFailed { shader_name, error_message }
            && shader_name@ == name@ && error_message@ == failure_message(step, name@, detail@),
{
    let mut v: Vec<char> = Vec::new();
    match step {
        CompileStep::Parse => {
            push_all(&mut v, chars_of("Failed to parse GLSL for ").as_slice());
            push_all(&mut v, chars_of(name).as_slice());
            push_all(&mut v, chars_of(":\n").as_slice());
        },
        CompileStep::Validate => {
            push_all(&mut v, chars_of("Naga validation failed for ").as_slice());
            push_all(&mut v, chars_of(name).as_slice());
            push_all(&mut v, chars_of(": ").as_slice());
        },
        CompileStep::Emit => {
            push_all(&mut v, chars_of("SPIR-V generation failed for ").as_slice());
            push_all(&mut v, chars_of(name).as_slice());
            push_all(&mut v, chars_of(": ").as_slice());
        },
    }
    push_all(&mut v, chars_of(detail).as_slice());
    ShaderError::CompilationFailed { shader_name: string_of(chars_of(name).as_slice()), error_message: string_of(v.as_slice()) }
}

/// What compiling `glsl` gives: the parse errors when it does not parse;
/// else the validator's errors (without checks, then with the expression
/// checks); else what the SPIR-V writer gives. An error names its step.
pub open spec fn compile_result(kind: ShaderKind, glsl: Seq<char>) -> Result<Seq<u32>, (CompileStep, Seq<char>)> {
    match glsl_parse_failure(kind, glsl) {
        Some(d) => Err((CompileStep::Parse, d)),
        None => match glsl_validation_failure(kind, glsl, false) {
            Some(d) => Err((CompileStep::Validate, d)),
            None => match glsl_validation_failure(kind, glsl, true) {
                Some(d) => Err((CompileStep::Validate, d)),
                None => match glsl_spirv(kind, glsl) {
                    Ok(w) => Ok(w),
                    Err(d) => Err((CompileStep::Emit, d)),
                },
            },
        },
    }
}

/// `r` is what compiling `glsl` as shader `name` returns: the words, or the
/// failure of shader `name` at the failing step with naga's text.
pub open spec fn compile_outcome(r: Result<Vec<u32>, ShaderError>, name: Seq<char>, kind: ShaderKind, glsl: Seq<char>) -> bool {
    match compile_result(kind, glsl) {
        Ok(w) => r matches Ok(v) && v@ == w,
        Err((step, d)) => r matches Err(ShaderError::CompilationFailed { shader_name, error_message })
            && shader_name@ == name && error_message@ == failure_message(step, name, d),
    }
}

/// Compiles Vulkan-flavoured GLSL 450 for the stage `kind` to SPIR-V words:
/// parse, validate (relaxed, then the expression checks, which the SPIR-V
/// writer relies on), emit. The first failing step gives the error.
pub fn compile_glsl(name: &str, kind: ShaderKind, glsl: &str) -> (r: Result<Vec<u32>, ShaderError>)
    ensures
        compile_outcome(r, name@, kind, glsl@),
{
    let parsed = match parse_glsl(kind, glsl) {
        Ok(p) => p,
        Err(detail) => {
            return Err(compilation_failure(CompileStep::Parse, name, detail.as_str()));
        },
    };
    let info = match validate_glsl(&parsed, false) {
        Ok(info) => info,
        Err(detail) => {
            return Err(compilation_failure(CompileStep::Validate, name, detail.as_str()));
        },
    };
    match validate_glsl(&parsed, true) {
        Ok(_) => {},
        Err(detail) => {
            return Err(compilation_failure(CompileStep::Validate, name, detail.as_str()));
        },
    }
    match write_glsl_spirv(&parsed, &info) {
        Ok(words) => Ok(words),
        Err(detail) => Err(compilation_failure(CompileStep::Emit, name, detail.as_str())),
    }
}

/// The full text handed to naga for a shader: the declarations of its
/// resources in front of its source, rewritten for wgpu, after the version
/// line and the shared library.
pub open spec fn shader_text(source: Seq<char>, rs: Seq<ShaderResourceDefinition>, shared: Seq<char>) -> Seq<char> {
    spec_prepare_source(shared, spec_preprocess_shader(spec_declared_source(source, rs), rs))
}

/// Whether the function definitions of a shader's source, with its
/// resources declared in front, can be rewritten (what `compile_shader`
/// needs of a source it compiles).
pub fn shader_source_rewrites_cleanly(source: &str, resources: &[ShaderResourceDefinition]) -> (r: bool)
    requires
        forall|i: int| 0 <= i < resources@.len() ==> resource_slots_fit(#[trigger] resources@[i]),
    ensures
        r == definitions_rewrite_cleanly(spec_declared_source(source@, resources@)),
{
    let src = chars_of(source);
    let declared = declared_source_of(resources, src.as_slice());
    definitions_rewrite_cleanly_of(string_of(declared.as_slice()).as_str())
}

/// Builds the SPIR-V of one shader of a program: checks the resource list,
/// refuses a source that uses a banned sRGB helper (the first lint warning is
/// the error), declares the resources, rewrites the source for wgpu, puts the
/// shared library (`shared`) in front and compiles it.
pub fn compile_shader(name: &str, kind: ShaderKind, source: &str, resources: &[ShaderResourceDefinition], shared: &str) -> (r: Result<Vec<u32>, ShaderError>)
    requires
        first_conflict(resources@, 0) is None && srgb_warnings(source@, name@).len() == 0 ==> {
            &&& forall|i: int| 0 <= i < resources@.len() ==> resource_slots_fit(#[trigger] resources@[i])
            &&& definitions_rewrite_cleanly(spec_declared_source(source@, resources@))
        },
    ensures
        match first_conflict(resources@, 0) {
            Some((i, j)) => r matches Err(ShaderError::Custom(m)) && m@ == conflict_message(resources@[i], resources@[j]),
            None => if srgb_warnings(source@, name@).len() > 0 {
                r matches Err(ShaderError::CompilationFailed { shader_name, error_message })
                    && shader_name@ == name@ && error_message@ == srgb_warnings(source@, name@)[0]
            } else {
                compile_outcome(r, name@, kind, shader_text(source@, resources@, shared@))
            },
        },
{
    match validate_resources(resources) {
        Err(e) => {
            return Err(e);
        },
        Ok(()) => {},
    }
    let warnings = check_srgb_conversions(source, name);
    if warnings.len() > 0 {
        assert(string_views(warnings@)[0] == warnings@[0]@);
        let message = string_of(chars_of(warnings[0].as_str()).as_slice());
        return Err(ShaderError::CompilationFailed { shader_name: string_of(chars_of(name).as_slice()), error_message: message });
    }
    let src = chars_of(source);
    let declared = declared_source_of(resources, src.as_slice());
    let mut text = string_of(declared.as_slice());
    preprocess_shader(&mut text, resources);
    let full = prepare_source(shared, text.as_str());
    compile_glsl(name, kind, full.as_str())
}

} // verus!
