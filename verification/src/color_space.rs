//! Color-space convention for the wgpu backend.
//!
//! Fyrox uses **linear working space** for all GPU compute and intermediate
//! storage. The final linear→sRGB encode happens exactly once, by the OS
//! compositor / display path, when the linear output reaches the screen.
//! The swapchain is therefore configured with a linear format (`Rgba8Unorm`
//! or `Bgra8Unorm`), so wgpu does not auto-encode on write, and fragment
//! shaders write linear values. sRGB-tagged textures (`Rgba8UnormSrgb`) are
//! decoded to linear by the sampler; colors authored in sRGB on the CPU are
//! converted to linear before upload.
use vstd::prelude::*;
use wgpu::TextureFormat;

verus! {

/// Whether a texture format stores sRGB-encoded color
/// (`wgpu::TextureFormat::is_srgb`).
pub uninterp spec fn texture_format_is_srgb(format: TextureFormat) -> bool;

/// Calls `wgpu::TextureFormat::is_srgb`. Its result depends on the format
/// alone; the contract gives it a name and says nothing more.
#[verifier::external_body]
fn format_is_srgb(format: TextureFormat) -> (r: bool)
    ensures
        r == texture_format_is_srgb(format),
{
    format.is_srgb()
}

/// The index of the first `false` (linear) flag, if there is one.
pub open spec fn first_linear_index(srgb: Seq<bool>, from: int) -> Option<int>
    decreases srgb.len() - from,
{
    if from < 0 || from >= srgb.len() {
        None
    } else if !srgb[from] {
        Some(from)
    } else {
        first_linear_index(srgb, from + 1)
    }
}

/// The preferred entry: the first linear one, else the first one, else none.
pub open spec fn preferred_index(srgb: Seq<bool>) -> Option<int> {
    match first_linear_index(srgb, 0) {
        Some(i) => Some(i),
        None => if srgb.len() > 0 { Some(0int) } else { None },
    }
}

/// Picks among surface formats described by their sRGB flags: the index of
/// the first linear (non-sRGB) format, else `0` if there is any format, else
/// `None`.
pub fn preferred_format_index(srgb: &[bool]) -> (r: Option<usize>)
    ensures
        match r {
            Some(i) => preferred_index(srgb@) == Some(i as int),
            None => preferred_index(srgb@) is None,
        },
{
    let mut i: usize = 0;
    while i < srgb.len()
        invariant
            0 <= i <= srgb@.len(),
            first_linear_index(srgb@, i as int) == first_linear_index(srgb@, 0),
        decreases srgb@.len() - i,
    {
        if !srgb[i] {
            return Some(i);
        }
        i = i + 1;
    }
    if srgb.len() > 0 {
        Some(0)
    } else {
        None
    }
}

/// The sRGB flag of each format, in order.
pub open spec fn srgb_flags(caps: Seq<TextureFormat>) -> Seq<bool> {
    Seq::new(caps.len(), |i: int| texture_format_is_srgb(caps[i]))
}

/// Returns the preferred surface format for the given surface capabilities.
///
/// Prefers a **linear** format (`Rgba8Unorm` / `Bgra8Unorm`) over sRGB
/// variants: the first non-sRGB format in `caps`, else the first format.
/// Returns `None` if `caps` is empty.
pub fn surface_format_for(caps: &[TextureFormat]) -> (r: Option<TextureFormat>)
    ensures
        match preferred_index(srgb_flags(caps@)) {
            Some(i) => r == Some(caps@[i]),
            None => r is None,
        },
        r is None <==> caps@.len() == 0,
{
    let mut flags: Vec<bool> = Vec::new();
    let mut i: usize = 0;
    while i < caps.len()
        invariant
            0 <= i <= caps@.len(),
            flags@ == srgb_flags(caps@).take(i as int),
        decreases caps@.len() - i,
    {
        flags.push(format_is_srgb(caps[i]));
        i = i + 1;
    }
    assert(flags@ == srgb_flags(caps@));
    proof {
        lemma_first_linear_in_range(flags@, 0);
    }
    match preferred_format_index(flags.as_slice()) {
        Some(k) => Some(caps[k]),
        None => None,
    }
}

/// Law: whenever some format is linear, the chosen format is linear.
pub proof fn lemma_prefers_linear(srgb: Seq<bool>, j: int)
    requires
        0 <= j < srgb.len(),
        !srgb[j],
    ensures
        preferred_index(srgb) matches Some(i) && 0 <= i <= j && !srgb[i],
{
    lemma_first_linear_found(srgb, 0, j);
}

proof fn lemma_first_linear_in_range(srgb: Seq<bool>, from: int)
    ensures
        first_linear_index(srgb, from) matches Some(i) ==> from <= i < srgb.len() && !srgb[i],
    decreases srgb.len() - from,
{
    if 0 <= from < srgb.len() && srgb[from] {
        lemma_first_linear_in_range(srgb, from + 1);
    }
}

proof fn lemma_first_linear_found(srgb: Seq<bool>, from: int, j: int)
    requires
        0 <= from <= j < srgb.len(),
        !srgb[j],
    ensures
        first_linear_index(srgb, from) matches Some(i) && from <= i <= j && !srgb[i],
    decreases j - from,
{
    if srgb[from] {
        lemma_first_linear_found(srgb, from + 1, j);
    }
}

} // verus!
