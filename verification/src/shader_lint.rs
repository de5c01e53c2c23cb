//! Shader source linting.
//!
//! Enforces the linear working-space convention: sRGB encoding/decoding must
//! not appear in shader source. sRGB-tagged textures are decoded on sampling
//! by wgpu, and the swapchain is linear (the OS compositor does the final
//! encode). A shader whose source uses a banned helper is refused by
//! `shader::compile_shader`, with the first warning as its error.
use crate::text::{chars_of, contains, find_from, push_all, string_of};
use vstd::prelude::*;

verus! {

/// The banned sRGB conversion helpers, in the order they are checked.
pub open spec fn srgb_helper(i: int) -> Seq<char> {
    if i == 0 { "S_SRGBToLinear"@ } else { "S_LinearToSRGB"@ }
}

/// The warning for a shader that uses a banned helper.
pub open spec fn lint_warning(shader: Seq<char>, helper: Seq<char>) -> Seq<char> {
    "shader_lint: shader `"@ + shader + "` contains banned sRGB helper `"@ + helper
        + "` \u{2014} sRGB conversions must not appear in shader source. Use sRGB-tagged texture formats for auto-decode, or CPU-side conversion before upload."@
}

/// The warnings for the banned helpers that occur in `source`, in order.
pub open spec fn srgb_warnings(source: Seq<char>, shader: Seq<char>) -> Seq<Seq<char>> {
    (if find_from(source, srgb_helper(0), 0) is Some { seq![lint_warning(shader, srgb_helper(0))] } else { Seq::empty() })
        + (if find_from(source, srgb_helper(1), 0) is Some { seq![lint_warning(shader, srgb_helper(1))] } else { Seq::empty() })
}

/// The views of a list of strings.
pub open spec fn string_views(v: Seq<String>) -> Seq<Seq<char>> {
    Seq::new(v.len(), |i: int| v[i]@)
}

fn srgb_helper_of(i: usize) -> (r: &'static str)
    requires
        i < 2,
    ensures
        r@ == srgb_helper(i as int),
{
    if i == 0 {
        let s = "S_SRGBToLinear";
        proof { reveal_strlit("S_SRGBToLinear"); }
        s
    } else {
        let s = "S_LinearToSRGB";
        proof { reveal_strlit("S_LinearToSRGB"); }
        s
    }
}

fn lint_warning_of(shader: &str, helper: &str) -> (r: String)
    ensures
        r@ == lint_warning(shader@, helper@),
{
    let mut v: Vec<char> = Vec::new();
    push_all(&mut v, chars_of("shader_lint: shader `").as_slice());
    push_all(&mut v, chars_of(shader).as_slice());
    push_all(&mut v, chars_of("` contains banned sRGB helper `").as_slice());
    push_all(&mut v, chars_of(helper).as_slice());
    push_all(&mut v, chars_of("` \u{2014} sRGB conversions must not appear in shader source. Use sRGB-tagged texture formats for auto-decode, or CPU-side conversion before upload.").as_slice());
    string_of(v.as_slice())
}

/// Checks `wgsl_source` for the banned sRGB conversion helpers
/// (`S_SRGBToLinear`, `S_LinearToSRGB`) and returns one warning per helper
/// found, in that order, naming the shader `shader_name`.
pub fn check_srgb_conversions(wgsl_source: &str, shader_name: &str) -> (r: Vec<String>)
    ensures
        string_views(r@) == srgb_warnings(wgsl_source@, shader_name@),
{
    let src = chars_of(wgsl_source);
    let mut out: Vec<String> = Vec::new();
    let mut i: usize = 0;
    while i < 2
        invariant
            0 <= i <= 2,
            src@ == wgsl_source@,
            string_views(out@) == (if i >= 1 && find_from(src@, srgb_helper(0), 0) is Some {
                seq![lint_warning(shader_name@, srgb_helper(0))]
            } else {
                Seq::empty()
            }) + (if i >= 2 && find_from(src@, srgb_helper(1), 0) is Some {
                seq![lint_warning(shader_name@, srgb_helper(1))]
            } else {
                Seq::empty()
            }),
        decreases 2 - i,
    {
        let helper = srgb_helper_of(i);
        let ghost before = out@;
        if contains(src.as_slice(), chars_of(helper).as_slice()) {
            out.push(lint_warning_of(shader_name, helper));
            assert(string_views(out@) =~= string_views(before).push(lint_warning(shader_name@, helper@)));
        }
        i = i + 1;
    }
    out
}

} // verus!
