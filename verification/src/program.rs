//! Shader source preparation for the wgpu backend.
//!
//! Fyrox shaders are written in OpenGL-flavoured GLSL with combined
//! `samplerXxx` uniforms. naga's GLSL front end (Vulkan GLSL 450) wants a
//! separate `textureXxx` and `sampler` per combined sampler, explicit binding
//! numbers and Vulkan built-in names. This module rewrites the source
//! accordingly, generates the resource declarations, and checks the resource
//! list. Positions in source text are character positions, except for
//! [`extract_call_args`], which works on byte positions.
use crate::text::{
    lemma_count_char_concat,
    cat3, cat4, cat5,
    lemma_find_from, lemma_trim_end_prefix,
    chars_of, concat, count_char, count_of, decimal, decimal_of, find, find_from, is_whitespace, is_ws,
    join, join_with, matches_at, matches_at_exec, push_all, replace_all, replace_in, same_chars, slice_of,
    split_on, split_on_char, split_whitespace_of, string_of, trim, trim_end, trim_end_of, trim_of,
    trim_start, views, ws_tokens,
};
use vstd::prelude::*;
use vstd::string::StringSliceAdditionalSpecFns;

verus! {

/// Type of a texture resource as seen by a shader (Fyrox's `SamplerKind`).
#[derive(Debug, Clone, Copy, PartialEq, Eq, Hash, Structural)]
pub enum SamplerKind {
    Sampler1D,
    Sampler2D,
    Sampler3D,
    SamplerCube,
    USampler1D,
    USampler2D,
    USampler3D,
    USamplerCube,
}

/// Stage of a shader (Fyrox's `ShaderKind`).
#[derive(Debug, Clone, Copy, PartialEq, Eq, Hash, Structural)]
pub enum ShaderKind {
    Vertex,
    Fragment,
}

/// The Vulkan GLSL 450 separate texture type of a sampler kind.
pub open spec fn spec_vulkan_texture_type(kind: SamplerKind) -> Seq<char> {
    match kind {
        SamplerKind::Sampler1D => "texture1D"@,
        SamplerKind::Sampler2D => "texture2D"@,
        SamplerKind::Sampler3D => "texture3D"@,
        SamplerKind::SamplerCube => "textureCube"@,
        SamplerKind::USampler1D => "utexture1D"@,
        SamplerKind::USampler2D => "utexture2D"@,
        SamplerKind::USampler3D => "utexture3D"@,
        SamplerKind::USamplerCube => "utextureCube"@,
    }
}

/// The combined sampler type (and constructor) name of a sampler kind.
pub open spec fn spec_sampler_constructor_name(kind: SamplerKind) -> Seq<char> {
    match kind {
        SamplerKind::Sampler1D => "sampler1D"@,
        SamplerKind::Sampler2D => "sampler2D"@,
        SamplerKind::Sampler3D => "sampler3D"@,
        SamplerKind::SamplerCube => "samplerCube"@,
        SamplerKind::USampler1D => "usampler1D"@,
        SamplerKind::USampler2D => "usampler2D"@,
        SamplerKind::USampler3D => "usampler3D"@,
        SamplerKind::USamplerCube => "usamplerCube"@,
    }
}

/// The sampler kind whose combined type name is `name`, if any.
pub open spec fn spec_sampler_kind_from_type_name(name: Seq<char>) -> Option<SamplerKind> {
    if name == "sampler1D"@ {
        Some(SamplerKind::Sampler1D)
    } else if name == "sampler2D"@ {
        Some(SamplerKind::Sampler2D)
    } else if name == "sampler3D"@ {
        Some(SamplerKind::Sampler3D)
    } else if name == "samplerCube"@ {
        Some(SamplerKind::SamplerCube)
    } else if name == "usampler1D"@ {
        Some(SamplerKind::USampler1D)
    } else if name == "usampler2D"@ {
        Some(SamplerKind::USampler2D)
    } else if name == "usampler3D"@ {
        Some(SamplerKind::USampler3D)
    } else if name == "usamplerCube"@ {
        Some(SamplerKind::USamplerCube)
    } else {
        None
    }
}

/// Returns the Vulkan GLSL 450 separate texture type name.
pub fn vulkan_texture_type(kind: SamplerKind) -> (r: &'static str)
    ensures
        r@ == spec_vulkan_texture_type(kind),
{
    match kind {
        SamplerKind::Sampler1D => "texture1D",
        SamplerKind::Sampler2D => "texture2D",
        SamplerKind::Sampler3D => "texture3D",
        SamplerKind::SamplerCube => "textureCube",
        SamplerKind::USampler1D => "utexture1D",
        SamplerKind::USampler2D => "utexture2D",
        SamplerKind::USampler3D => "utexture3D",
        SamplerKind::USamplerCube => "utextureCube",
    }
}

/// Returns the combined sampler constructor name (e.g. "sampler2D", "samplerCube").
pub fn sampler_constructor_name(kind: SamplerKind) -> (r: &'static str)
    ensures
        r@ == spec_sampler_constructor_name(kind),
{
    match kind {
        SamplerKind::Sampler1D => "sampler1D",
        SamplerKind::Sampler2D => "sampler2D",
        SamplerKind::Sampler3D => "sampler3D",
        SamplerKind::SamplerCube => "samplerCube",
        SamplerKind::USampler1D => "usampler1D",
        SamplerKind::USampler2D => "usampler2D",
        SamplerKind::USampler3D => "usampler3D",
        SamplerKind::USamplerCube => "usamplerCube",
    }
}

/// Maps a combined sampler type name given as characters to its sampler kind.
pub fn sampler_kind_from_chars(name: &[char]) -> (r: Option<SamplerKind>)
    ensures
        r == spec_sampler_kind_from_type_name(name@),
{
    if same_chars(name, chars_of(sampler_constructor_name(SamplerKind::Sampler1D)).as_slice()) {
        return Some(SamplerKind::Sampler1D);
    }
    if same_chars(name, chars_of(sampler_constructor_name(SamplerKind::Sampler2D)).as_slice()) {
        return Some(SamplerKind::Sampler2D);
    }
    if same_chars(name, chars_of(sampler_constructor_name(SamplerKind::Sampler3D)).as_slice()) {
        return Some(SamplerKind::Sampler3D);
    }
    if same_chars(name, chars_of(sampler_constructor_name(SamplerKind::SamplerCube)).as_slice()) {
        return Some(SamplerKind::SamplerCube);
    }
    if same_chars(name, chars_of(sampler_constructor_name(SamplerKind::USampler1D)).as_slice()) {
        return Some(SamplerKind::USampler1D);
    }
    if same_chars(name, chars_of(sampler_constructor_name(SamplerKind::USampler2D)).as_slice()) {
        return Some(SamplerKind::USampler2D);
    }
    if same_chars(name, chars_of(sampler_constructor_name(SamplerKind::USampler3D)).as_slice()) {
        return Some(SamplerKind::USampler3D);
    }
    if same_chars(name, chars_of(sampler_constructor_name(SamplerKind::USamplerCube)).as_slice()) {
        return Some(SamplerKind::USamplerCube);
    }
    None
}

/// Maps a combined sampler type name to SamplerKind.
pub fn sampler_kind_from_type_name(name: &str) -> (r: Option<SamplerKind>)
    ensures
        r == spec_sampler_kind_from_type_name(name@),
{
    let chars = chars_of(name);
    sampler_kind_from_chars(chars.as_slice())
}

/// Law: reading back the combined type name of a sampler kind gives that kind.
pub proof fn lemma_sampler_names_round_trip(kind: SamplerKind)
    ensures
        spec_sampler_kind_from_type_name(spec_sampler_constructor_name(kind)) == Some(kind),
{
    reveal_strlit("sampler1D");
    reveal_strlit("sampler2D");
    reveal_strlit("sampler3D");
    reveal_strlit("samplerCube");
    reveal_strlit("usampler1D");
    reveal_strlit("usampler2D");
    reveal_strlit("usampler3D");
    reveal_strlit("usamplerCube");
    let names = seq![
        "sampler1D"@, "sampler2D"@, "sampler3D"@, "samplerCube"@,
        "usampler1D"@, "usampler2D"@, "usampler3D"@, "usamplerCube"@,
    ];
    assert forall|a: int, b: int| 0 <= a < b < 8 implies names[a] != names[b] by {
        assert(names[a].len() != names[b].len() || names[a][7] != names[b][7] || names[a][8] != names[b][8]);
    }
    let n = spec_sampler_constructor_name(kind);
    match kind {
        SamplerKind::Sampler1D => assert(n == names[0]),
        SamplerKind::Sampler2D => assert(n == names[1] && n != names[0]),
        SamplerKind::Sampler3D => assert(n == names[2] && n != names[0] && n != names[1]),
        SamplerKind::SamplerCube => assert(n == names[3] && n != names[0] && n != names[1] && n != names[2]),
        SamplerKind::USampler1D => assert(n == names[4] && n != names[0] && n != names[1] && n != names[2] && n != names[3]),
        SamplerKind::USampler2D => assert(n == names[5] && n != names[0] && n != names[1] && n != names[2] && n != names[3] && n != names[4]),
        SamplerKind::USampler3D => assert(n == names[6] && n != names[0] && n != names[1] && n != names[2] && n != names[3] && n != names[4] && n != names[5]),
        SamplerKind::USamplerCube => assert(n == names[7] && n != names[0] && n != names[1] && n != names[2] && n != names[3] && n != names[4] && n != names[5] && n != names[6]),
    }
}

/// Number of line breaks in `src`, as the line-offset type.
pub fn count_lines(src: &str) -> (r: isize)
    ensures
        r == count_char(src@, '\n') as isize,
{
    let chars = chars_of(src);
    count_of(chars.as_slice(), '\n') as isize
}

/// Scans `s` from `i` with paren nesting `depth` until the nesting drops to
/// zero or the text ends: the index reached and the final depth.
pub open spec fn paren_scan(s: Seq<char>, i: int, depth: int) -> (int, int)
    decreases s.len() - i,
{
    if i < 0 || i >= s.len() || depth <= 0 {
        (i, depth)
    } else {
        let d = if s[i] == '(' { depth + 1 } else if s[i] == ')' { depth - 1 } else { depth };
        paren_scan(s, i + 1, d)
    }
}

/// The argument text of the call whose `(` is at `p`, and the index just
/// after its matching `)`; `None` if `s[p]` is not `(` or it is unclosed.
pub open spec fn call_args(s: Seq<char>, p: int) -> Option<(Seq<char>, int)> {
    if !(0 <= p < s.len()) || s[p] != '(' {
        None
    } else {
        let (i, d) = paren_scan(s, p + 1, 1);
        if d == 0 {
            Some((s.subrange(p + 1, i - 1), i))
        } else {
            None
        }
    }
}

proof fn lemma_paren_scan(s: Seq<char>, i: int, depth: int)
    requires
        0 <= i <= s.len(),
        depth >= 0,
    ensures
        i <= paren_scan(s, i, depth).0 <= s.len(),
        paren_scan(s, i, depth).1 >= 0,
        paren_scan(s, i, depth).1 == 0 && depth > 0 ==> paren_scan(s, i, depth).0 > i,
        paren_scan(s, i, depth).1 == 0 && depth > 0 ==> s[paren_scan(s, i, depth).0 - 1] == ')',
    decreases s.len() - i,
{
    if i < s.len() && depth > 0 {
        let d = if s[i] == '(' { depth + 1 } else if s[i] == ')' { depth - 1 } else { depth };
        lemma_paren_scan(s, i + 1, d);
    }
}

/// Law: the arguments of a call lie strictly between its parentheses.
pub proof fn lemma_call_args_bounds(s: Seq<char>, p: int)
    requires
        call_args(s, p) is Some,
    ensures
        ({
            let (args, end) = call_args(s, p).unwrap();
            &&& 0 <= p < end - 1
            &&& end <= s.len()
            &&& s[p] == '('
            &&& s[end - 1] == ')'
            &&& args == s.subrange(p + 1, end - 1)
        }),
{
    lemma_paren_scan(s, p + 1, 1);
}

/// Finds the arguments of the call whose `(` is at `paren_start`.
pub fn call_args_of(s: &[char], paren_start: usize) -> (r: Option<(Vec<char>, usize)>)
    ensures
        match r {
            Some((args, end)) => call_args(s@, paren_start as int) == Some((args@, end as int)),
            None => call_args(s@, paren_start as int) is None,
        },
{
    if paren_start >= s.len() || s[paren_start] != '(' {
        return None;
    }
    let mut depth: usize = 1;
    let mut i: usize = paren_start + 1;
    while i < s.len() && depth > 0
        invariant
            paren_start < i <= s@.len(),
            depth <= i,
            paren_scan(s@, i as int, depth as int) == paren_scan(s@, paren_start + 1, 1),
        decreases s@.len() - i,
    {
        if s[i] == '(' {
            depth = depth + 1;
        } else if s[i] == ')' {
            depth = depth - 1;
        }
        i = i + 1;
    }
    if depth == 0 {
        proof {
            lemma_paren_scan(s@, paren_start + 1, 1);
        }
        Some((slice_of(s, paren_start + 1, i - 1), i))
    } else {
        None
    }
}

/// Scans the bytes `b` from `i` with paren nesting `depth` until the nesting
/// drops to zero or the bytes end: the index reached and the final depth.
pub open spec fn byte_paren_scan(b: Seq<u8>, i: int, depth: int) -> (int, int)
    decreases b.len() - i,
{
    if i < 0 || i >= b.len() || depth <= 0 {
        (i, depth)
    } else {
        let d = if b[i] == 40u8 { depth + 1 } else if b[i] == 41u8 { depth - 1 } else { depth };
        byte_paren_scan(b, i + 1, d)
    }
}

/// The argument bytes of the call whose `(` is at byte `p` of `b`, and the
/// byte index just after its matching `)`; `None` if `b[p]` is not `(` or it
/// is unclosed.
pub open spec fn byte_call_args(b: Seq<u8>, p: int) -> Option<(Seq<u8>, int)> {
    if !(0 <= p < b.len()) || b[p] != 40u8 {
        None
    } else {
        let (i, d) = byte_paren_scan(b, p + 1, 1);
        if d == 0 {
            Some((b.subrange(p + 1, i - 1), i))
        } else {
            None
        }
    }
}

proof fn lemma_byte_paren_scan(b: Seq<u8>, i: int, depth: int)
    requires
        0 <= i <= b.len(),
        depth >= 0,
    ensures
        i <= byte_paren_scan(b, i, depth).0 <= b.len(),
        byte_paren_scan(b, i, depth).1 >= 0,
        byte_paren_scan(b, i, depth).1 == 0 && depth > 0 ==> byte_paren_scan(b, i, depth).0 > i,
        byte_paren_scan(b, i, depth).1 == 0 && depth > 0 ==> b[byte_paren_scan(b, i, depth).0 - 1]
            == 41u8,
    decreases b.len() - i,
{
    if i < b.len() && depth > 0 {
        let d = if b[i] == 40u8 { depth + 1 } else if b[i] == 41u8 { depth - 1 } else { depth };
        lemma_byte_paren_scan(b, i + 1, d);
    }
}

/// In valid UTF-8, the byte after a one-byte character starts a character.
proof fn lemma_boundary_after_ascii(b: Seq<u8>, k: int)
    requires
        vstd::utf8::valid_utf8(b),
        0 <= k < b.len(),
        vstd::utf8::is_char_boundary(b, k),
        b[k] <= 0x7f,
    ensures
        vstd::utf8::is_char_boundary(b, k + 1),
    decreases b.len(),
{
    let l = vstd::utf8::length_of_first_scalar(b);
    let t = vstd::utf8::pop_first_scalar(b);
    reveal_with_fuel(vstd::utf8::is_char_boundary, 2);
    if k == 0 {
        assert(l == 1);
    } else {
        assert(vstd::utf8::valid_utf8(t));
        assert(t[k - l] == b[k]);
        lemma_boundary_after_ascii(t, k - l);
    }
}

/// Finds the arguments of a function call starting at the opening paren.
/// Positions are byte positions in `source`: returns the argument text and
/// the byte index just after the closing paren.
pub fn extract_call_args(source: &str, paren_start: usize) -> (r: Option<(String, usize)>)
    ensures
        match r {
            Some((args, end)) => byte_call_args(source.spec_bytes(), paren_start as int) == Some(
                (vstd::utf8::encode_utf8(args@), end as int),
            ),
            None => byte_call_args(source.spec_bytes(), paren_start as int) is None,
        },
{
    let b = source.as_bytes();
    if paren_start >= b.len() || b[paren_start] != 40u8 {
        return None;
    }
    let mut depth: usize = 1;
    let mut i: usize = paren_start + 1;
    while i < b.len() && depth > 0
        invariant
            paren_start < i <= b@.len(),
            depth <= i,
            b@ == source.spec_bytes(),
            byte_paren_scan(b@, i as int, depth as int) == byte_paren_scan(b@, paren_start + 1, 1),
        decreases b@.len() - i,
    {
        if b[i] == 40u8 {
            depth = depth + 1;
        } else if b[i] == 41u8 {
            depth = depth - 1;
        }
        i = i + 1;
    }
    if depth != 0 {
        return None;
    }
    let ghost bytes = source.spec_bytes();
    proof {
        lemma_byte_paren_scan(bytes, paren_start + 1, 1);
        vstd::utf8::encode_utf8_valid_utf8(source@);
        vstd::utf8::is_char_boundary_iff_not_is_continuation_byte(bytes, paren_start as int);
        lemma_boundary_after_ascii(bytes, paren_start as int);
    }
    let (_, tail) = source.split_at(paren_start + 1);
    let ghost tail_bytes = tail.spec_bytes();
    proof {
        vstd::utf8::encode_utf8_valid_utf8(tail@);
        assert(tail_bytes[i - 2 - paren_start] == bytes[i - 1]);
        vstd::utf8::is_char_boundary_iff_not_is_continuation_byte(
            tail_bytes,
            i - 2 - paren_start,
        );
    }
    let (mid, _) = tail.split_at(i - 2 - paren_start);
    let args = mid.to_owned();
    proof {
        assert(mid.spec_bytes() =~= bytes.subrange(paren_start + 1, i - 1));
    }
    Some((args, i))
}

/// Characters that may stand next to an argument: comma, space, tab, newline.
pub open spec fn is_arg_sep(c: char) -> bool {
    c == ',' || c == ' ' || c == '\t' || c == '\n'
}

fn arg_sep(c: char) -> (r: bool)
    ensures
        r == is_arg_sep(c),
{
    c == ',' || c == ' ' || c == '\t' || c == '\n'
}

/// The starts of the non-overlapping occurrences of `pat` in `s` from `pos`
/// on, scanning left to right.
pub open spec fn occurrences(s: Seq<char>, pat: Seq<char>, pos: int) -> Seq<int>
    decreases s.len() - pos,
{
    if pat.len() == 0 || pos < 0 || pos + pat.len() > s.len() {
        Seq::empty()
    } else if matches_at(s, pat, pos) {
        seq![pos] + occurrences(s, pat, pos + pat.len())
    } else {
        occurrences(s, pat, pos + 1)
    }
}

/// `s` with the `len` characters at `at` replaced by `with`.
pub open spec fn splice(s: Seq<char>, at: int, len: int, with: Seq<char>) -> Seq<char> {
    s.take(at) + with + s.skip(at + len)
}

/// `name_tex,name_samp`: the separate texture and sampler arguments.
pub open spec fn tex_pair(tex: Seq<char>) -> Seq<char> {
    tex + "_tex,"@ + tex + "_samp"@
}

/// `name_tex, name_samp`.
pub open spec fn tex_pair_spaced(tex: Seq<char>) -> Seq<char> {
    tex + "_tex, "@ + tex + "_samp"@
}

/// The separators tried between a doubled texture argument, in order.
pub open spec fn double_sep(k: int) -> Seq<char> {
    if k == 0 { ","@ } else if k == 1 { ", "@ } else if k == 2 { ",\n"@ } else { ",\t"@ }
}

/// The separators tried after a texture argument, in order.
pub open spec fn single_sep(k: int) -> Seq<char> {
    if k == 0 { ","@ } else { ", "@ }
}

/// The character before `pos` in `args`, if any, separates arguments.
pub open spec fn preceded_ok(args: Seq<char>, pos: int) -> bool {
    pos == 0 || is_arg_sep(args[pos - 1])
}

/// A doubled texture argument (`name, name`) of a call whose arguments
/// `args` start at `args_start` in `s` becomes `name_tex,name_samp`: the first
/// separator (from `k` on) whose first doubled occurrence stands alone as
/// arguments decides; otherwise `s` is unchanged.
pub open spec fn double_arg_fix(s: Seq<char>, args: Seq<char>, args_start: int, tex: Seq<char>, k: int) -> Seq<char>
    decreases 4 - k,
{
    if k < 0 || k >= 4 {
        s
    } else {
        let double = tex + double_sep(k) + tex;
        match find_from(args, double, 0) {
            Some(found) => if preceded_ok(args, found) && (found + double.len() >= args.len() || is_arg_sep(args[found + double.len()])) {
                splice(s, args_start + found, double.len() as int, tex_pair(tex))
            } else {
                double_arg_fix(s, args, args_start, tex, k + 1)
            },
            None => double_arg_fix(s, args, args_start, tex, k + 1),
        }
    }
}

/// A texture argument followed by a separator (`name,` or `name, `) that is
/// not the start of a doubled argument becomes `name_tex,name_samp` followed
/// by the separator. The occurrence is looked up in `args` (the arguments as
/// they were before `double_arg_fix`) and rewritten at its first occurrence in
/// the text between `args_start` and `call_end - 1` of the current `s`.
pub open spec fn single_arg_fix(s: Seq<char>, args: Seq<char>, args_start: int, call_end: int, tex: Seq<char>, k: int) -> Seq<char>
    decreases 2 - k,
{
    if k < 0 || k >= 2 {
        s
    } else {
        let pattern = tex + single_sep(k);
        match find_from(args, pattern, 0) {
            Some(found) => {
                let after_sep = found + pattern.len();
                let is_double = after_sep + tex.len() <= args.len() && matches_at(args, tex, after_sep);
                if preceded_ok(args, found) && !is_double {
                    match find_from(s.subrange(args_start, call_end - 1), pattern, 0) {
                        Some(f2) => splice(s, args_start + f2, pattern.len() as int, tex_pair(tex) + single_sep(k)),
                        None => s,
                    }
                } else {
                    single_arg_fix(s, args, args_start, call_end, tex, k + 1)
                }
            },
            None => single_arg_fix(s, args, args_start, call_end, tex, k + 1),
        }
    }
}

/// Rewrites one call starting at `call_start` (the search pattern `func(`
/// has length `search_len`): a texture argument in last position becomes
/// `name_tex, name_samp` (trailing blanks before `)` dropped); otherwise the
/// doubled and single forms are rewritten in turn.
pub open spec fn tex_arg_step(s: Seq<char>, call_start: int, search_len: int, tex: Seq<char>) -> Seq<char> {
    let paren = call_start + search_len - 1;
    match call_args(s, paren) {
        None => s,
        Some((args, call_end)) => {
            let trimmed = trim_end(args);
            let ns = trimmed.len() - tex.len();
            if tex.len() <= trimmed.len() && matches_at(trimmed, tex, ns) && preceded_ok(trimmed, ns) {
                s.take(paren + 1 + ns) + tex_pair_spaced(tex) + s.skip(call_end - 1)
            } else {
                single_arg_fix(double_arg_fix(s, args, paren + 1, tex, 0), args, paren + 1, call_end, tex, 0)
            }
        },
    }
}

/// Applies `tex_arg_step` at the call starts `ps`, last one first.
pub open spec fn apply_calls(s: Seq<char>, ps: Seq<int>, search_len: int, tex: Seq<char>) -> Seq<char>
    decreases ps.len(),
{
    if ps.len() == 0 {
        s
    } else {
        apply_calls(tex_arg_step(s, ps.last(), search_len, tex), ps.drop_last(), search_len, tex)
    }
}

/// In every call `func(...)` of `s`, from the last to the first, the
/// texture argument `tex` is split into `tex_tex` and `tex_samp`.
pub open spec fn spec_replace_texture_arg(s: Seq<char>, func: Seq<char>, tex: Seq<char>) -> Seq<char> {
    apply_calls(s, occurrences(s, func + "("@, 0), (func.len() + 1) as int, tex)
}

proof fn lemma_occurrences(s: Seq<char>, pat: Seq<char>, pos: int)
    requires
        pos >= 0,
    ensures
        forall|i: int| 0 <= i < occurrences(s, pat, pos).len() ==> pos <= #[trigger] occurrences(s, pat, pos)[i]
            && occurrences(s, pat, pos)[i] + pat.len() <= s.len(),
    decreases s.len() - pos,
{
    if pat.len() == 0 || pos + pat.len() > s.len() {
    } else if matches_at(s, pat, pos) {
        lemma_occurrences(s, pat, pos + pat.len());
        let o = occurrences(s, pat, pos + pat.len());
        assert(occurrences(s, pat, pos) == seq![pos] + o);
        assert forall|i: int| 0 <= i < occurrences(s, pat, pos).len() implies pos <= #[trigger] occurrences(s, pat, pos)[i]
            && occurrences(s, pat, pos)[i] + pat.len() <= s.len() by {
            if i > 0 {
                assert(occurrences(s, pat, pos)[i] == o[i - 1]);
            }
        }
    } else {
        lemma_occurrences(s, pat, pos + 1);
        assert(occurrences(s, pat, pos) == occurrences(s, pat, pos + 1));
    }
}

proof fn lemma_no_occurrences(s: Seq<char>, pat: Seq<char>, pos: int)
    requires
        pos >= 0,
        forall|j: int| pos <= j ==> !matches_at(s, pat, j),
    ensures
        occurrences(s, pat, pos).len() == 0,
    decreases s.len() - pos,
{
    if pat.len() > 0 && pos + pat.len() <= s.len() {
        lemma_no_occurrences(s, pat, pos + 1);
    }
}

/// Law: a source without a call of `func` is left as it is.
pub proof fn lemma_replace_without_call(s: Seq<char>, func: Seq<char>, tex: Seq<char>)
    requires
        find_from(s, func + "("@, 0) is None,
    ensures
        spec_replace_texture_arg(s, func, tex) == s,
{
    lemma_find_from(s, func + "("@, 0);
    lemma_no_occurrences(s, func + "("@, 0);
}

/// The starts of the non-overlapping occurrences of `pat` in `s`.
fn occurrence_positions(s: &[char], pat: &[char]) -> (r: Vec<usize>)
    requires
        pat@.len() > 0,
    ensures
        r@.len() == occurrences(s@, pat@, 0).len(),
        forall|i: int| 0 <= i < r@.len() ==> r@[i] as int == occurrences(s@, pat@, 0)[i],
{
    let mut r: Vec<usize> = Vec::new();
    let mut pos: usize = 0;
    let ghost done: Seq<int> = Seq::empty();
    while pos < s.len() && pat.len() <= s.len() - pos
        invariant
            pat@.len() > 0,
            pos <= s@.len(),
            r@.len() == done.len(),
            forall|i: int| 0 <= i < r@.len() ==> r@[i] as int == done[i],
            done + occurrences(s@, pat@, pos as int) == occurrences(s@, pat@, 0),
        decreases s@.len() - pos,
    {
        if matches_at_exec(s, pat, pos) {
            r.push(pos);
            proof {
                assert(done.push(pos as int) + occurrences(s@, pat@, pos + pat@.len()) =~= done + occurrences(s@, pat@, pos as int));
                done = done.push(pos as int);
            }
            pos = pos + pat.len();
        } else {
            pos = pos + 1;
        }
    }
    assert(occurrences(s@, pat@, pos as int) =~= Seq::<int>::empty());
    assert(done =~= occurrences(s@, pat@, 0));
    r
}

/// `s` with the `len` characters at `at` replaced by `with`.
fn splice_of(s: &[char], at: usize, len: usize, with: &[char]) -> (r: Vec<char>)
    requires
        at + len <= s@.len(),
    ensures
        r@ == splice(s@, at as int, len as int, with@),
{
    let n: usize = s.len();
    let mut v = slice_of(s, 0, at);
    push_all(&mut v, with);
    let tail = slice_of(s, at + len, n);
    push_all(&mut v, tail.as_slice());
    assert(v@ =~= splice(s@, at as int, len as int, with@));
    v
}

fn double_sep_of(k: usize) -> (r: Vec<char>)
    ensures
        r@ == double_sep(k as int),
{
    if k == 0 { chars_of(",") } else if k == 1 { chars_of(", ") } else if k == 2 { chars_of(",\n") } else { chars_of(",\t") }
}

fn single_sep_of(k: usize) -> (r: Vec<char>)
    ensures
        r@ == single_sep(k as int),
{
    if k == 0 { chars_of(",") } else { chars_of(", ") }
}

fn tex_pair_of(tex: &[char]) -> (r: Vec<char>)
    ensures
        r@ == tex_pair(tex@),
{
    let mut v: Vec<char> = Vec::new();
    push_all(&mut v, tex);
    push_all(&mut v, chars_of("_tex,").as_slice());
    push_all(&mut v, tex);
    push_all(&mut v, chars_of("_samp").as_slice());
    v
}

fn tex_pair_spaced_of(tex: &[char]) -> (r: Vec<char>)
    ensures
        r@ == tex_pair_spaced(tex@),
{
    let mut v: Vec<char> = Vec::new();
    push_all(&mut v, tex);
    push_all(&mut v, chars_of("_tex, ").as_slice());
    push_all(&mut v, tex);
    push_all(&mut v, chars_of("_samp").as_slice());
    v
}

proof fn lemma_double_arg_fix_len(s: Seq<char>, args: Seq<char>, args_start: int, tex: Seq<char>, k: int)
    requires
        0 <= args_start,
        args_start + args.len() <= s.len(),
    ensures
        double_arg_fix(s, args, args_start, tex, k).len() >= s.len(),
    decreases 4 - k,
{
    reveal_strlit("_tex,");
    reveal_strlit("_samp");
    reveal_strlit(",");
    reveal_strlit(", ");
    reveal_strlit(",\n");
    reveal_strlit(",\t");
    if 0 <= k < 4 {
        let double = tex + double_sep(k) + tex;
        lemma_find_from(args, double, 0);
        lemma_double_arg_fix_len(s, args, args_start, tex, k + 1);
    }
}

fn double_arg_fix_of(s: &[char], args: &[char], args_start: usize, tex: &[char]) -> (r: Vec<char>)
    requires
        args_start + args@.len() <= s@.len(),
    ensures
        r@ == double_arg_fix(s@, args@, args_start as int, tex@, 0),
{
    let mut k: usize = 0;
    let alen: usize = args.len();
    let slen: usize = s.len();
    while k < 4
        invariant
            k <= 4,
            alen == args@.len(),
            slen == s@.len(),
            args_start + args@.len() <= s@.len(),
            double_arg_fix(s@, args@, args_start as int, tex@, k as int) == double_arg_fix(s@, args@, args_start as int, tex@, 0),
        decreases 4 - k,
    {
        let sep = double_sep_of(k);
        let mut double = concat(tex, sep.as_slice());
        push_all(&mut double, tex);
        match find(args, double.as_slice(), 0) {
            Some(found) => {
                proof {
                    lemma_find_from(args@, double@, 0);
                }
                let end = found + double.len();
                let pre = found == 0 || arg_sep(args[found - 1]);
                let post = end >= args.len() || arg_sep(args[end]);
                if pre && post {
                    let pair = tex_pair_of(tex);
                    return splice_of(s, args_start + found, double.len(), pair.as_slice());
                }
            },
            None => {},
        }
        k = k + 1;
    }
    slice_of(s, 0, s.len())
}

fn single_arg_fix_of(s: &[char], args: &[char], args_start: usize, call_end: usize, tex: &[char]) -> (r: Vec<char>)
    requires
        1 <= call_end,
        args_start <= call_end - 1 <= s@.len(),
    ensures
        r@ == single_arg_fix(s@, args@, args_start as int, call_end as int, tex@, 0),
{
    let mut k: usize = 0;
    let alen: usize = args.len();
    while k < 2
        invariant
            k <= 2,
            alen == args@.len(),
            1 <= call_end,
            args_start <= call_end - 1 <= s@.len(),
            single_arg_fix(s@, args@, args_start as int, call_end as int, tex@, k as int)
                == single_arg_fix(s@, args@, args_start as int, call_end as int, tex@, 0),
        decreases 2 - k,
    {
        let sep = single_sep_of(k);
        let pattern = concat(tex, sep.as_slice());
        match find(args, pattern.as_slice(), 0) {
            Some(found) => {
                proof {
                    lemma_find_from(args@, pattern@, 0);
                }
                let after_sep = found + pattern.len();
                let is_double = tex.len() <= alen - after_sep && matches_at_exec(args, tex, after_sep);
                let pre = found == 0 || arg_sep(args[found - 1]);
                if pre && !is_double {
                    let window = slice_of(s, args_start, call_end - 1);
                    match find(window.as_slice(), pattern.as_slice(), 0) {
                        Some(f2) => {
                            proof {
                                lemma_find_from(window@, pattern@, 0);
                            }
                            let mut with = tex_pair_of(tex);
                            push_all(&mut with, sep.as_slice());
                            return splice_of(s, args_start + f2, pattern.len(), with.as_slice());
                        },
                        None => {
                            return slice_of(s, 0, s.len());
                        },
                    }
                }
            },
            None => {},
        }
        k = k + 1;
    }
    slice_of(s, 0, s.len())
}

fn tex_arg_step_of(s: &[char], call_start: usize, search_len: usize, tex: &[char]) -> (r: Vec<char>)
    requires
        search_len >= 1,
        call_start + search_len <= usize::MAX,
    ensures
        r@ == tex_arg_step(s@, call_start as int, search_len as int, tex@),
{
    let paren = call_start + search_len - 1;
    let n: usize = s.len();
    match call_args_of(s, paren) {
        None => slice_of(s, 0, n),
        Some((args, call_end)) => {
            proof {
                lemma_call_args_bounds(s@, paren as int);
                lemma_trim_end_prefix(args@);
            }
            let trimmed = trim_end_of(args.as_slice());
            if tex.len() <= trimmed.len() {
                let ns = trimmed.len() - tex.len();
                if matches_at_exec(trimmed.as_slice(), tex, ns) && (ns == 0 || arg_sep(trimmed[ns - 1])) {
                    proof {
                        if ns > 0 {
                            assert(trimmed@[ns - 1] == args@[ns - 1]);
                        }
                    }
                    let mut out = slice_of(s, 0, paren + 1 + ns);
                    let pair = tex_pair_spaced_of(tex);
                    push_all(&mut out, pair.as_slice());
                    let tail = slice_of(s, call_end - 1, n);
                    push_all(&mut out, tail.as_slice());
                    return out;
                }
            }
            let s2 = double_arg_fix_of(s, args.as_slice(), paren + 1, tex);
            proof {
                lemma_double_arg_fix_len(s@, args@, paren + 1, tex@, 0);
            }
            single_arg_fix_of(s2.as_slice(), args.as_slice(), paren + 1, call_end, tex)
        },
    }
}

/// Splits the texture argument `tex` of every call of `func` in `s`.
pub fn replace_texture_arg_in_chars(s: &[char], func: &[char], tex: &[char]) -> (r: Vec<char>)
    ensures
        r@ == spec_replace_texture_arg(s@, func@, tex@),
{
    let mut search = slice_of(func, 0, func.len());
    search.push('(');
    proof {
        reveal_strlit("(");
        assert(search@ =~= func@ + "("@);
    }
    let positions = occurrence_positions(s, search.as_slice());
    proof {
        lemma_occurrences(s@, search@, 0);
    }
    let ghost occ = occurrences(s@, search@, 0);
    let n: usize = s.len();
    let mut cur = slice_of(s, 0, n);
    let mut i: usize = positions.len();
    assert(occ.take(occ.len() as int) =~= occ);
    assert(cur@ =~= s@);
    assert(search@.len() == func@.len() + 1) by {
        reveal_strlit("(");
    }
    while i > 0
        invariant
            i <= positions@.len(),
            positions@.len() == occ.len(),
            n == s@.len(),
            search@.len() == func@.len() + 1,
            forall|j: int| 0 <= j < positions@.len() ==> positions@[j] as int == occ[j],
            forall|j: int| 0 <= j < occ.len() ==> 0 <= #[trigger] occ[j] && occ[j] + search@.len() <= s@.len(),
            apply_calls(cur@, occ.take(i as int), search@.len() as int, tex@) == spec_replace_texture_arg(s@, func@, tex@),
        decreases i,
    {
        i = i - 1;
        let p = positions[i];
        assert(occ[i as int] + search@.len() <= n);
        assert(occ.take(i + 1).drop_last() =~= occ.take(i as int));
        cur = tex_arg_step_of(cur.as_slice(), p, search.len(), tex);
    }
    assert(occ.take(0) =~= Seq::<int>::empty());
    cur
}

/// Finds calls to `func_name(...)` in the source where `texture_name` appears
/// as an argument, and replaces it with `texture_name_tex, texture_name_samp`.
/// Handles three cases, tried in this order for each call (last call first):
/// 1. Last argument: `func(..., name)` → `func(..., name_tex, name_samp)`
/// 2. Two consecutive args: `func(..., name, name, ...)` → `func(..., name_tex,name_samp, ...)`
/// 3. First/middle argument: `func(name, ...)` → `func(name_tex,name_samp, ...)`
pub fn replace_texture_arg_in_calls(source: &mut String, func_name: &str, texture_name: &str)
    ensures
        final(source)@ == spec_replace_texture_arg(old(source)@, func_name@, texture_name@),
{
    let s = chars_of(source.as_str());
    let f = chars_of(func_name);
    let t = chars_of(texture_name);
    let r = replace_texture_arg_in_chars(s.as_slice(), f.as_slice(), t.as_slice());
    *source = string_of(r.as_slice());
}

/// The texture sampling functions whose first argument is a combined sampler.
pub open spec fn texture_fn(i: int) -> Seq<char> {
    if i == 0 { "texture"@ } else if i == 1 { "textureLod"@ } else if i == 2 { "textureGrad"@ }
    else if i == 3 { "textureOffset"@ } else if i == 4 { "textureLodOffset"@ } else if i == 5 { "texelFetch"@ }
    else if i == 6 { "texelFetchOffset"@ } else if i == 7 { "textureProj"@ } else { "textureProjLod"@ }
}

fn texture_fn_of(i: usize) -> (r: &'static str)
    ensures
        r@ == texture_fn(i as int),
{
    if i == 0 { "texture" } else if i == 1 { "textureLod" } else if i == 2 { "textureGrad" }
    else if i == 3 { "textureOffset" } else if i == 4 { "textureLodOffset" } else if i == 5 { "texelFetch" }
    else if i == 6 { "texelFetchOffset" } else if i == 7 { "textureProj" } else { "textureProjLod" }
}

/// The shared-library functions that take a texture and its sampler as
/// separate parameters.
pub open spec fn shared_fn(i: int) -> Seq<char> {
    if i == 0 { "S_PointShadow"@ } else if i == 1 { "S_SpotShadowFactor"@ }
    else if i == 2 { "S_ComputeParallaxTextureCoordinates"@ } else if i == 3 { "S_FetchMatrix"@ }
    else if i == 4 { "S_FetchBlendShapeOffsets"@ } else if i == 5 { "Internal_FetchHeight"@ } else { "CsmGetShadow"@ }
}

fn shared_fn_of(i: usize) -> (r: &'static str)
    ensures
        r@ == shared_fn(i as int),
{
    if i == 0 { "S_PointShadow" } else if i == 1 { "S_SpotShadowFactor" }
    else if i == 2 { "S_ComputeParallaxTextureCoordinates" } else if i == 3 { "S_FetchMatrix" }
    else if i == 4 { "S_FetchBlendShapeOffsets" } else if i == 5 { "Internal_FetchHeight" } else { "CsmGetShadow" }
}

/// The spellings of a call of `f` with `name` as first argument:
/// `f(name,`, `f(name ,`, `f( name,`.
pub open spec fn usage_pattern(f: Seq<char>, name: Seq<char>, j: int) -> Seq<char> {
    if j == 0 { f + "("@ + name + ","@ } else if j == 1 { f + "("@ + name + " ,"@ } else { f + "( "@ + name + ","@ }
}

/// For texture functions `i..9`, each spelling of a call with `name` first
/// is replaced by `f(expr,`.
pub open spec fn texture_fn_replacements(s: Seq<char>, name: Seq<char>, expr: Seq<char>, i: int) -> Seq<char>
    decreases 9 - i,
{
    if i < 0 || i >= 9 {
        s
    } else {
        let f = texture_fn(i);
        let to = f + "("@ + expr + ","@;
        let s1 = replace_all(s, usage_pattern(f, name, 0), to);
        let s2 = replace_all(s1, usage_pattern(f, name, 1), to);
        let s3 = replace_all(s2, usage_pattern(f, name, 2), to);
        texture_fn_replacements(s3, name, expr, i + 1)
    }
}

/// For shared functions `i..7`, the texture argument `name` is split.
pub open spec fn shared_fn_rewrites(s: Seq<char>, name: Seq<char>, i: int) -> Seq<char>
    decreases 7 - i,
{
    if i < 0 || i >= 7 {
        s
    } else {
        shared_fn_rewrites(spec_replace_texture_arg(s, shared_fn(i), name), name, i + 1)
    }
}

/// The combined-sampler expression that stands for `name`:
/// `samplerXxx(name_tex, name_samp)`.
pub open spec fn sampler_expr(name: Seq<char>, kind: SamplerKind) -> Seq<char> {
    spec_sampler_constructor_name(kind) + "("@ + name + "_tex, "@ + name + "_samp)"@
}

/// Rewrites the uses of the combined sampler `name` of `kind`: sampling calls
/// take `samplerXxx(name_tex, name_samp)`, `textureSize` takes `name_tex`,
/// and shared functions take `name_tex, name_samp`.
pub open spec fn spec_rewrite_sampler_usages(s: Seq<char>, name: Seq<char>, kind: SamplerKind) -> Seq<char> {
    let a = texture_fn_replacements(s, name, sampler_expr(name, kind), 0);
    let size_to = "textureSize("@ + name + "_tex,"@;
    let b = replace_all(replace_all(a, "textureSize("@ + name + ","@, size_to), "textureSize("@ + name + " ,"@, size_to);
    shared_fn_rewrites(b, name, 0)
}

fn usage_pattern_of(f: &[char], name: &[char], j: usize) -> (r: Vec<char>)
    ensures
        r@ == usage_pattern(f@, name@, j as int),
{
    if j == 0 {
        cat4(f, chars_of("(").as_slice(), name, chars_of(",").as_slice())
    } else if j == 1 {
        cat4(f, chars_of("(").as_slice(), name, chars_of(" ,").as_slice())
    } else {
        cat4(f, chars_of("( ").as_slice(), name, chars_of(",").as_slice())
    }
}

/// Rewrites, in `s`, the uses of the combined sampler `name` of `kind`.
pub fn rewrite_sampler_usages_in(s: &mut Vec<char>, name: &[char], kind: SamplerKind)
    ensures
        final(s)@ == spec_rewrite_sampler_usages(old(s)@, name@, kind),
{
    let ctor = chars_of(sampler_constructor_name(kind));
    let tail = concat(name, chars_of("_samp)").as_slice());
    let expr = cat5(ctor.as_slice(), chars_of("(").as_slice(), name, chars_of("_tex, ").as_slice(), tail.as_slice());
    assert(expr@ =~= sampler_expr(name@, kind));
    let ghost s0 = s@;
    let mut i: usize = 0;
    while i < 9
        invariant
            i <= 9,
            expr@ == sampler_expr(name@, kind),
            texture_fn_replacements(s@, name@, expr@, i as int) == texture_fn_replacements(s0, name@, expr@, 0),
        decreases 9 - i,
    {
        let f = chars_of(texture_fn_of(i));
        let to = cat4(f.as_slice(), chars_of("(").as_slice(), expr.as_slice(), chars_of(",").as_slice());
        let ghost before = s@;
        let p0 = usage_pattern_of(f.as_slice(), name, 0);
        replace_in(s, p0.as_slice(), to.as_slice());
        let p1 = usage_pattern_of(f.as_slice(), name, 1);
        replace_in(s, p1.as_slice(), to.as_slice());
        let p2 = usage_pattern_of(f.as_slice(), name, 2);
        replace_in(s, p2.as_slice(), to.as_slice());
        assert(texture_fn_replacements(before, name@, expr@, i as int) == texture_fn_replacements(s@, name@, expr@, i + 1));
        i = i + 1;
    }
    let size_from0 = cat3(chars_of("textureSize(").as_slice(), name, chars_of(",").as_slice());
    let size_from1 = cat3(chars_of("textureSize(").as_slice(), name, chars_of(" ,").as_slice());
    let size_to = cat3(chars_of("textureSize(").as_slice(), name, chars_of("_tex,").as_slice());
    replace_in(s, size_from0.as_slice(), size_to.as_slice());
    replace_in(s, size_from1.as_slice(), size_to.as_slice());
    let ghost b = s@;
    let mut k: usize = 0;
    while k < 7
        invariant
            k <= 7,
            shared_fn_rewrites(s@, name@, k as int) == shared_fn_rewrites(b, name@, 0),
        decreases 7 - k,
    {
        let f = chars_of(shared_fn_of(k));
        let r = replace_texture_arg_in_chars(s.as_slice(), f.as_slice(), name);
        *s = r;
        k = k + 1;
    }
}

/// Rewrites texture function calls, textureSize calls, and shared function argument
/// splitting for a given sampler name. Used for both global texture resources and
/// local function parameters.
pub fn rewrite_sampler_usages(source: &mut String, name: &str, kind: SamplerKind)
    ensures
        final(source)@ == spec_rewrite_sampler_usages(old(source)@, name@, kind),
{
    let mut s = chars_of(source.as_str());
    let n = chars_of(name);
    rewrite_sampler_usages_in(&mut s, n.as_slice(), kind);
    *source = string_of(s.as_slice());
}

/// Identifier characters: ASCII letters and digits, and `_`.
pub open spec fn is_ident_char(c: char) -> bool {
    ('a' <= c && c <= 'z') || ('A' <= c && c <= 'Z') || ('0' <= c && c <= '9') || c == '_'
}

fn ident_char(c: char) -> (r: bool)
    ensures
        r == is_ident_char(c),
{
    ('a' <= c && c <= 'z') || ('A' <= c && c <= 'Z') || ('0' <= c && c <= '9') || c == '_'
}

/// The first token at or after `from` that is a combined sampler type name.
pub open spec fn first_keyword(tokens: Seq<Seq<char>>, from: int) -> Option<int>
    decreases tokens.len() - from,
{
    if from < 0 || from >= tokens.len() {
        None
    } else if spec_sampler_kind_from_type_name(tokens[from]) is Some {
        Some(from)
    } else {
        first_keyword(tokens, from + 1)
    }
}

/// A parameter declaration with a combined sampler type: its name (the last
/// token) and its sampler kind (the first sampler type token); `None` if it
/// has fewer than two tokens or no sampler type.
pub open spec fn param_sampler(p: Seq<char>) -> Option<(Seq<char>, SamplerKind)> {
    let tokens = ws_tokens(trim(p));
    if tokens.len() < 2 {
        None
    } else {
        match first_keyword(tokens, 0) {
            Some(ti) => Some((tokens.last(), spec_sampler_kind_from_type_name(tokens[ti]).unwrap())),
            None => None,
        }
    }
}

/// The sampler parameters among parameter declarations, in order.
pub open spec fn sampler_params(pieces: Seq<Seq<char>>) -> Seq<(Seq<char>, SamplerKind)>
    decreases pieces.len(),
{
    if pieces.len() == 0 {
        Seq::empty()
    } else {
        let rest = sampler_params(pieces.drop_last());
        match param_sampler(pieces.last()) {
            Some(ps) => rest.push(ps),
            None => rest,
        }
    }
}

/// Finds the `}` that closes the brace nesting `depth` (scanning from `k`).
pub open spec fn brace_scan(s: Seq<char>, k: int, depth: int) -> Option<int>
    decreases s.len() - k,
{
    if k < 0 || k >= s.len() {
        None
    } else if s[k] == '{' {
        brace_scan(s, k + 1, depth + 1)
    } else if s[k] == '}' {
        if depth - 1 == 0 { Some(k) } else { brace_scan(s, k + 1, depth - 1) }
    } else {
        brace_scan(s, k + 1, depth)
    }
}

/// A function definition whose parameter list opens at `i` and that has
/// combined sampler parameters: `(i, end of body, sampler parameters)`.
/// A definition is a `(` right after an identifier character, a balanced
/// parameter list, then (after whitespace) a brace-balanced body.
pub open spec fn region_at(s: Seq<char>, i: int) -> Option<(int, int, Seq<(Seq<char>, SamplerKind)>)> {
    if !(0 < i < s.len()) || s[i] != '(' || !is_ident_char(s[i - 1]) {
        None
    } else {
        match call_args(s, i) {
            None => None,
            Some((args, after)) => {
                let rest = s.skip(after);
                let body = trim_start(rest);
                if !(body.len() > 0 && body[0] == '{') {
                    None
                } else {
                    let params = sampler_params(split_on(args, ','));
                    if params.len() == 0 {
                        None
                    } else {
                        match brace_scan(s, after + (rest.len() - body.len()), 0) {
                            Some(k) => Some((i, k + 1, params)),
                            None => None,
                        }
                    }
                }
            },
        }
    }
}

/// The definitions found at positions `0..n`, in order.
pub open spec fn regions_upto(s: Seq<char>, n: int) -> Seq<(int, int, Seq<(Seq<char>, SamplerKind)>)>
    decreases n,
{
    if n <= 0 {
        Seq::empty()
    } else {
        let rest = regions_upto(s, n - 1);
        match region_at(s, n - 1) {
            Some(r) => rest.push(r),
            None => rest,
        }
    }
}

/// A parameter declaration after rewriting: a combined sampler parameter
/// becomes a `textureXxx name_tex` and a `sampler name_samp` parameter (with
/// the qualifiers that preceded the type); any other piece stays as it was.
pub open spec fn rewrite_param(p: Seq<char>) -> Seq<Seq<char>> {
    let tokens = ws_tokens(trim(p));
    if tokens.len() < 2 {
        seq![p]
    } else {
        match first_keyword(tokens, 0) {
            None => seq![p],
            Some(ti) => {
                let kind = spec_sampler_kind_from_type_name(tokens[ti]).unwrap();
                let name = tokens.last();
                let qual = if ti == 0 { Seq::<char>::empty() } else { join(tokens.take(ti), " "@) + " "@ };
                seq![
                    qual + spec_vulkan_texture_type(kind) + " "@ + name + "_tex"@,
                    qual + "sampler "@ + name + "_samp"@,
                ]
            },
        }
    }
}

/// Law: a parameter declaration with a combined sampler type becomes two
/// declarations with the same qualifiers, `textureXxx name_tex` and
/// `sampler name_samp`; any other declaration stays as it is.
pub proof fn lemma_rewrite_param_pair(p: Seq<char>)
    ensures
        match param_sampler(p) {
            Some((name, kind)) => exists|q: Seq<char>| #![auto]
                rewrite_param(p) == seq![
                    q + spec_vulkan_texture_type(kind) + " "@ + name + "_tex"@,
                    q + "sampler "@ + name + "_samp"@,
                ],
            None => rewrite_param(p) == seq![p],
        },
{
    let tokens = ws_tokens(trim(p));
    if tokens.len() >= 2 {
        match first_keyword(tokens, 0) {
            Some(ti) => {
                let qual = if ti == 0 { Seq::<char>::empty() } else { join(tokens.take(ti), " "@) + " "@ };
                let kind = spec_sampler_kind_from_type_name(tokens[ti]).unwrap();
                let name = tokens.last();
                assert(rewrite_param(p) == seq![
                    qual + spec_vulkan_texture_type(kind) + " "@ + name + "_tex"@,
                    qual + "sampler "@ + name + "_samp"@,
                ]);
            },
            None => {},
        }
    }
}

/// The rewritten parameter declarations, in order.
pub open spec fn rewrite_params(pieces: Seq<Seq<char>>) -> Seq<Seq<char>>
    decreases pieces.len(),
{
    if pieces.len() == 0 {
        Seq::empty()
    } else {
        rewrite_params(pieces.drop_last()) + rewrite_param(pieces.last())
    }
}

/// The body after rewriting the uses of each sampler parameter, in order.
pub open spec fn usage_fold(body: Seq<char>, params: Seq<(Seq<char>, SamplerKind)>) -> Seq<char>
    decreases params.len(),
{
    if params.len() == 0 {
        body
    } else {
        spec_rewrite_sampler_usages(usage_fold(body, params.drop_last()), params.last().0, params.last().1)
    }
}

/// Rewrites one definition: the parameter list (read again at `paren`) is
/// replaced by the rewritten declarations joined with `, `, and the text from
/// its first following `{` to `body_end` by the body with the sampler uses
/// rewritten. The blanks between `)` and `{` are dropped. When the text no
/// longer has that shape, it is left as it is.
pub open spec fn rewrite_region(s: Seq<char>, paren: int, body_end: int, params: Seq<(Seq<char>, SamplerKind)>) -> Seq<char> {
    match call_args(s, paren) {
        None => s,
        Some((args, after)) => match find_from(s, "{"@, after) {
            None => s,
            Some(brace) => if body_end > s.len() || brace > body_end {
                s
            } else {
                let new_args = join(rewrite_params(split_on(args, ',')), ", "@);
                let new_body = usage_fold(s.subrange(brace, body_end), params);
                s.take(paren) + "("@ + new_args + ")"@ + new_body + s.skip(body_end)
            },
        },
    }
}

/// Rewrites the definitions `regs`, the last one first.
pub open spec fn apply_regions(s: Seq<char>, regs: Seq<(int, int, Seq<(Seq<char>, SamplerKind)>)>) -> Seq<char>
    decreases regs.len(),
{
    if regs.len() == 0 {
        s
    } else {
        let r = regs.last();
        apply_regions(rewrite_region(s, r.0, r.1, r.2), regs.drop_last())
    }
}

/// Every function definition with combined sampler parameters gets
/// Vulkan-style separate texture and sampler parameters, and its body the
/// matching uses.
pub open spec fn spec_rewrite_sampler_function_definitions(s: Seq<char>) -> Seq<char> {
    apply_regions(s, regions_upto(s, s.len() as int))
}

/// A definition found at `paren` still has its shape when it is rewritten:
/// if its parameter list closes, a `{` follows, and the body end lies
/// between that `{` and the end of the text.
pub open spec fn region_shape_holds(s: Seq<char>, paren: int, body_end: int) -> bool {
    match call_args(s, paren) {
        None => true,
        Some((_, after)) => match find_from(s, "{"@, after) {
            None => false,
            Some(brace) => brace <= body_end <= s.len(),
        },
    }
}

/// Every rewrite of `regs` (the last first) meets a definition that still
/// has its shape.
pub open spec fn regions_rewrite_cleanly(s: Seq<char>, regs: Seq<(int, int, Seq<(Seq<char>, SamplerKind)>)>) -> bool
    decreases regs.len(),
{
    if regs.len() == 0 {
        true
    } else {
        let r = regs.last();
        region_shape_holds(s, r.0, r.1) && regions_rewrite_cleanly(rewrite_region(s, r.0, r.1, r.2), regs.drop_last())
    }
}

/// The function definitions of `s` can be rewritten one after the other:
/// an earlier rewrite never leaves a later definition without its `{` or
/// with its body end out of place (possible only when definitions overlap).
pub open spec fn definitions_rewrite_cleanly(s: Seq<char>) -> bool {
    regions_rewrite_cleanly(s, regions_upto(s, s.len() as int))
}

/// Law: the definitions found at positions `0..n` are those where
/// `region_at` finds one, each once, in the order of their `(`.
pub proof fn lemma_regions_upto(s: Seq<char>, n: int)
    ensures
        forall|j: int| 0 <= j < regions_upto(s, n).len() ==> 0 <= (#[trigger] regions_upto(s, n)[j]).0 < n
            && region_at(s, regions_upto(s, n)[j].0) == Some(regions_upto(s, n)[j]),
        forall|j: int, k: int| 0 <= j < k < regions_upto(s, n).len() ==> (#[trigger] regions_upto(s, n)[j]).0
            < (#[trigger] regions_upto(s, n)[k]).0,
        forall|i: int| 0 <= i < n && (#[trigger] region_at(s, i)) is Some ==> exists|j: int|
            0 <= j < regions_upto(s, n).len() && (#[trigger] regions_upto(s, n)[j]).0 == i,
    decreases n,
{
    if n > 0 {
        lemma_regions_upto(s, n - 1);
        let rest = regions_upto(s, n - 1);
        let regs = regions_upto(s, n);
        match region_at(s, n - 1) {
            Some(r) => {
                assert(regs == rest.push(r));
                assert(r.0 == n - 1);
                assert forall|i: int| 0 <= i < n && (#[trigger] region_at(s, i)) is Some implies exists|j: int|
                    0 <= j < regs.len() && (#[trigger] regs[j]).0 == i by {
                    if i == n - 1 {
                        assert(regs[rest.len() as int].0 == i);
                    } else {
                        let j = choose|j: int| 0 <= j < rest.len() && (#[trigger] rest[j]).0 == i;
                        assert(regs[j] == rest[j]);
                    }
                }
                assert forall|j: int, k: int| 0 <= j < k < regs.len() implies (#[trigger] regs[j]).0
                    < (#[trigger] regs[k]).0 by {
                    assert(regs[j] == rest[j]);
                    if k < rest.len() {
                        assert(regs[k] == rest[k]);
                    }
                }
                assert forall|j: int| 0 <= j < regs.len() implies 0 <= (#[trigger] regs[j]).0 < n
                    && region_at(s, regs[j].0) == Some(regs[j]) by {
                    if j < rest.len() {
                        assert(regs[j] == rest[j]);
                    }
                }
            },
            None => {
                assert(regs == rest);
            },
        }
    }
}

/// Law: a source in which no function definition has combined sampler
/// parameters is left as it is.
pub proof fn lemma_rewrite_definitions_without_samplers(s: Seq<char>)
    requires
        forall|i: int| 0 <= i < s.len() ==> (#[trigger] region_at(s, i)) is None,
    ensures
        spec_rewrite_sampler_function_definitions(s) == s,
{
    let regs = regions_upto(s, s.len() as int);
    lemma_regions_upto(s, s.len() as int);
    if regs.len() > 0 {
        assert(region_at(s, regs[0].0) == Some(regs[0]));
    }
    assert(regs.len() == 0);
}

proof fn lemma_first_keyword(tokens: Seq<Seq<char>>, from: int)
    ensures
        first_keyword(tokens, from) matches Some(i) ==> 0 <= from <= i < tokens.len()
            && spec_sampler_kind_from_type_name(tokens[i]) is Some,
    decreases tokens.len() - from,
{
    if 0 <= from < tokens.len() && spec_sampler_kind_from_type_name(tokens[from]) is None {
        lemma_first_keyword(tokens, from + 1);
    }
}

proof fn lemma_brace_scan(s: Seq<char>, k: int, depth: int)
    ensures
        brace_scan(s, k, depth) matches Some(e) ==> k <= e < s.len(),
    decreases s.len() - k,
{
    if 0 <= k < s.len() {
        lemma_brace_scan(s, k + 1, depth + 1);
        lemma_brace_scan(s, k + 1, depth - 1);
        lemma_brace_scan(s, k + 1, depth);
    }
}

/// The views of a list of named sampler parameters.
pub open spec fn pviews(v: Seq<(Vec<char>, SamplerKind)>) -> Seq<(Seq<char>, SamplerKind)> {
    Seq::new(v.len(), |i: int| (v[i].0@, v[i].1))
}

fn first_keyword_of(tokens: &[Vec<char>]) -> (r: Option<usize>)
    ensures
        match r {
            Some(i) => first_keyword(views(tokens@), 0) == Some(i as int),
            None => first_keyword(views(tokens@), 0) is None,
        },
{
    let mut i: usize = 0;
    while i < tokens.len()
        invariant
            0 <= i <= tokens@.len(),
            first_keyword(views(tokens@), i as int) == first_keyword(views(tokens@), 0),
        decreases tokens@.len() - i,
    {
        if sampler_kind_from_chars(tokens[i].as_slice()).is_some() {
            return Some(i);
        }
        i = i + 1;
    }
    None
}

fn param_sampler_of(p: &[char]) -> (r: Option<(Vec<char>, SamplerKind)>)
    ensures
        match r {
            Some((n, k)) => param_sampler(p@) == Some((n@, k)),
            None => param_sampler(p@) is None,
        },
{
    let t = trim_of(p);
    let tokens = split_whitespace_of(t.as_slice());
    if tokens.len() < 2 {
        return None;
    }
    let r = first_keyword_of(tokens.as_slice());
    proof {
        lemma_first_keyword(views(tokens@), 0);
    }
    match r {
        Some(ti) => {
            let kind = sampler_kind_from_chars(tokens[ti].as_slice());
            let last = tokens.len() - 1;
            let name = slice_of(tokens[last].as_slice(), 0, tokens[last].len());
            assert(name@ =~= tokens@[last as int]@);
            match kind {
                Some(k) => Some((name, k)),
                None => None,
            }
        },
        None => None,
    }
}

fn sampler_params_of(pieces: &[Vec<char>]) -> (r: Vec<(Vec<char>, SamplerKind)>)
    ensures
        pviews(r@) == sampler_params(views(pieces@)),
{
    let mut r: Vec<(Vec<char>, SamplerKind)> = Vec::new();
    let mut i: usize = 0;
    while i < pieces.len()
        invariant
            0 <= i <= pieces@.len(),
            pviews(r@) == sampler_params(views(pieces@).take(i as int)),
        decreases pieces@.len() - i,
    {
        let ghost vs = views(pieces@);
        assert(vs.take(i + 1).drop_last() =~= vs.take(i as int));
        assert(vs.take(i + 1).last() == pieces@[i as int]@);
        match param_sampler_of(pieces[i].as_slice()) {
            Some(ps) => {
                r.push(ps);
            },
            None => {},
        }
        assert(pviews(r@) =~= sampler_params(vs.take(i + 1)));
        i = i + 1;
    }
    assert(views(pieces@).take(pieces@.len() as int) =~= views(pieces@));
    r
}

fn brace_scan_of(s: &[char], start: usize) -> (r: Option<usize>)
    requires
        start < s@.len(),
        s@[start as int] == '{',
    ensures
        match r {
            Some(k) => brace_scan(s@, start as int, 0) == Some(k as int),
            None => brace_scan(s@, start as int, 0) is None,
        },
{
    let n: usize = s.len();
    let mut depth: usize = 1;
    let mut k: usize = start + 1;
    while k < n
        invariant
            n == s@.len(),
            start < k <= s@.len(),
            1 <= depth <= k - start,
            brace_scan(s@, k as int, depth as int) == brace_scan(s@, start as int, 0),
        decreases s@.len() - k,
    {
        if s[k] == '{' {
            depth = depth + 1;
        } else if s[k] == '}' {
            if depth - 1 == 0 {
                return Some(k);
            }
            depth = depth - 1;
        }
        k = k + 1;
    }
    None
}

fn region_at_of(s: &[char], i: usize) -> (r: Option<(usize, usize, Vec<(Vec<char>, SamplerKind)>)>)
    ensures
        match r {
            Some((a, b, ps)) => region_at(s@, i as int) == Some((a as int, b as int, pviews(ps@))),
            None => region_at(s@, i as int) is None,
        },
{
    let n: usize = s.len();
    if !(0 < i && i < n) || s[i] != '(' || !ident_char(s[i - 1]) {
        return None;
    }
    match call_args_of(s, i) {
        None => None,
        Some((args, after)) => {
            proof {
                lemma_call_args_bounds(s@, i as int);
            }
            let mut b = after;
            while b < n && is_whitespace(s[b])
                invariant
                    after <= b <= n,
                    n == s@.len(),
                    trim_start(s@.skip(after as int)) == trim_start(s@.skip(b as int)),
                decreases n - b,
            {
                assert(s@.skip(b as int).skip(1) =~= s@.skip(b + 1));
                b = b + 1;
            }
            let ghost rest = s@.skip(after as int);
            assert(b < n ==> !is_ws(s@.skip(b as int)[0]));
            assert(trim_start(s@.skip(b as int)) == s@.skip(b as int));
            if !(b < n && s[b] == '{') {
                return None;
            }
            let pieces = split_on_char(args.as_slice(), ',');
            let params = sampler_params_of(pieces.as_slice());
            if params.len() == 0 {
                return None;
            }
            assert(rest.len() - trim_start(rest).len() == b - after);
            let found = brace_scan_of(s, b);
            proof {
                lemma_brace_scan(s@, b as int, 0);
            }
            match found {
                Some(k) => Some((i, k + 1, params)),
                None => None,
            }
        },
    }
}

fn rewrite_param_of(p: &[char]) -> (r: Vec<Vec<char>>)
    ensures
        views(r@) == rewrite_param(p@),
{
    let t = trim_of(p);
    let tokens = split_whitespace_of(t.as_slice());
    let mut r: Vec<Vec<char>> = Vec::new();
    if tokens.len() < 2 {
        let c = slice_of(p, 0, p.len());
        assert(c@ =~= p@);
        r.push(c);
        assert(views(r@) =~= rewrite_param(p@));
        return r;
    }
    let found = first_keyword_of(tokens.as_slice());
    proof {
        lemma_first_keyword(views(tokens@), 0);
    }
    match found {
        None => {
            let c = slice_of(p, 0, p.len());
            assert(c@ =~= p@);
            r.push(c);
            assert(views(r@) =~= rewrite_param(p@));
            r
        },
        Some(ti) => {
            let kind = match sampler_kind_from_chars(tokens[ti].as_slice()) {
                Some(k) => k,
                None => SamplerKind::Sampler2D,
            };
            let last = tokens.len() - 1;
            let name = slice_of(tokens[last].as_slice(), 0, tokens[last].len());
            assert(name@ =~= views(tokens@).last());
            let mut qual: Vec<char> = Vec::new();
            if ti > 0 {
                let head = slice_vecs(tokens.as_slice(), ti);
                qual = join_with(head.as_slice(), chars_of(" ").as_slice());
                push_all(&mut qual, chars_of(" ").as_slice());
                assert(views(head@) =~= views(tokens@).take(ti as int));
            }
            let tex_type = chars_of(vulkan_texture_type(kind));
            let mut first = concat(qual.as_slice(), tex_type.as_slice());
            push_all(&mut first, chars_of(" ").as_slice());
            push_all(&mut first, name.as_slice());
            push_all(&mut first, chars_of("_tex").as_slice());
            let mut second = concat(qual.as_slice(), chars_of("sampler ").as_slice());
            push_all(&mut second, name.as_slice());
            push_all(&mut second, chars_of("_samp").as_slice());
            r.push(first);
            r.push(second);
            assert(views(r@) =~= rewrite_param(p@));
            r
        },
    }
}

/// Copies of the first `n` character vectors.
fn slice_vecs(v: &[Vec<char>], n: usize) -> (r: Vec<Vec<char>>)
    requires
        n <= v@.len(),
    ensures
        views(r@) == views(v@).take(n as int),
{
    let mut r: Vec<Vec<char>> = Vec::new();
    let mut i: usize = 0;
    while i < n
        invariant
            i <= n <= v@.len(),
            views(r@) =~= views(v@).take(i as int),
        decreases n - i,
    {
        let c = slice_of(v[i].as_slice(), 0, v[i].len());
        assert(c@ =~= v@[i as int]@);
        let ghost r0 = r@;
        r.push(c);
        assert(views(r@) =~= views(r0).push(v@[i as int]@));
        assert(views(v@).take(i + 1) =~= views(v@).take(i as int).push(v@[i as int]@));
        i = i + 1;
    }
    r
}

fn rewrite_params_of(pieces: &[Vec<char>]) -> (r: Vec<Vec<char>>)
    ensures
        views(r@) == rewrite_params(views(pieces@)),
{
    let mut r: Vec<Vec<char>> = Vec::new();
    let mut i: usize = 0;
    while i < pieces.len()
        invariant
            0 <= i <= pieces@.len(),
            views(r@) == rewrite_params(views(pieces@).take(i as int)),
        decreases pieces@.len() - i,
    {
        let ghost vs = views(pieces@);
        assert(vs.take(i + 1).drop_last() =~= vs.take(i as int));
        assert(vs.take(i + 1).last() == pieces@[i as int]@);
        let ghost before = views(r@);
        let mut more = rewrite_param_of(pieces[i].as_slice());
        let ghost added = views(more@);
        let mut j: usize = 0;
        while j < more.len()
            invariant
                0 <= j <= more@.len(),
                views(more@) == added,
                views(r@) =~= before + added.take(j as int),
            decreases more@.len() - j,
        {
            let c = slice_of(more[j].as_slice(), 0, more[j].len());
            assert(c@ =~= more@[j as int]@);
            assert(added.take(j + 1) =~= added.take(j as int).push(added[j as int]));
            let ghost r0 = r@;
            r.push(c);
            assert(views(r@) =~= views(r0).push(c@));
            j = j + 1;
        }
        assert(added.take(added.len() as int) =~= added);
        assert(views(r@) =~= rewrite_params(vs.take(i + 1)));
        i = i + 1;
    }
    assert(views(pieces@).take(pieces@.len() as int) =~= views(pieces@));
    r
}

fn usage_fold_of(body: Vec<char>, params: &[(Vec<char>, SamplerKind)]) -> (r: Vec<char>)
    ensures
        r@ == usage_fold(body@, pviews(params@)),
{
    let mut cur = body;
    let ghost b0 = cur@;
    let mut j: usize = 0;
    assert(pviews(params@).take(0) =~= Seq::<(Seq<char>, SamplerKind)>::empty());
    while j < params.len()
        invariant
            0 <= j <= params@.len(),
            cur@ == usage_fold(b0, pviews(params@).take(j as int)),
        decreases params@.len() - j,
    {
        let ghost ps = pviews(params@);
        assert(ps.take(j + 1).drop_last() =~= ps.take(j as int));
        assert(ps.take(j + 1).last() == (params@[j as int].0@, params@[j as int].1));
        rewrite_sampler_usages_in(&mut cur, params[j].0.as_slice(), params[j].1);
        j = j + 1;
    }
    assert(pviews(params@).take(params@.len() as int) =~= pviews(params@));
    cur
}

fn rewrite_region_of(s: &[char], paren: usize, body_end: usize, params: &[(Vec<char>, SamplerKind)]) -> (r: Vec<char>)
    ensures
        r@ == rewrite_region(s@, paren as int, body_end as int, pviews(params@)),
{
    let n: usize = s.len();
    match call_args_of(s, paren) {
        None => slice_of(s, 0, n),
        Some((args, after)) => {
            proof {
                lemma_call_args_bounds(s@, paren as int);
            }
            let open = chars_of("{");
            let found = find(s, open.as_slice(), after);
            proof {
                lemma_find_from(s@, open@, after as int);
            }
            match found {
                None => slice_of(s, 0, n),
                Some(brace) => {
                    if body_end > n || brace > body_end {
                        return slice_of(s, 0, n);
                    }
                    let pieces = split_on_char(args.as_slice(), ',');
                    let new_params = rewrite_params_of(pieces.as_slice());
                    let new_args = join_with(new_params.as_slice(), chars_of(", ").as_slice());
                    let body = slice_of(s, brace, body_end);
                    let new_body = usage_fold_of(body, params);
                    let mut out = slice_of(s, 0, paren);
                    out.push('(');
                    push_all(&mut out, new_args.as_slice());
                    out.push(')');
                    push_all(&mut out, new_body.as_slice());
                    let tail = slice_of(s, body_end, n);
                    push_all(&mut out, tail.as_slice());
                    proof {
                        reveal_strlit("(");
                        reveal_strlit(")");
                    }
                    assert(out@ =~= rewrite_region(s@, paren as int, body_end as int, pviews(params@)));
                    out
                },
            }
        },
    }
}

/// The views of a list of found definitions.
pub open spec fn rviews(v: Seq<(usize, usize, Vec<(Vec<char>, SamplerKind)>)>) -> Seq<(int, int, Seq<(Seq<char>, SamplerKind)>)> {
    Seq::new(v.len(), |i: int| (v[i].0 as int, v[i].1 as int, pviews(v[i].2@)))
}

fn region_shape_of(s: &[char], paren: usize, body_end: usize) -> (r: bool)
    ensures
        r == region_shape_holds(s@, paren as int, body_end as int),
{
    match call_args_of(s, paren) {
        None => true,
        Some((_, after)) => {
            let open = chars_of("{");
            match find(s, open.as_slice(), after) {
                None => false,
                Some(brace) => brace <= body_end && body_end <= s.len(),
            }
        },
    }
}

/// Rewrites every function definition with combined sampler parameters, and
/// tells whether every rewrite met a definition that kept its shape.
fn rewrite_definitions_checked(s: &[char]) -> (r: (Vec<char>, bool))
    ensures
        r.0@ == spec_rewrite_sampler_function_definitions(s@),
        r.1 == definitions_rewrite_cleanly(s@),
{
    let n: usize = s.len();
    let mut regions: Vec<(usize, usize, Vec<(Vec<char>, SamplerKind)>)> = Vec::new();
    let mut i: usize = 0;
    while i < n
        invariant
            0 <= i <= n,
            n == s@.len(),
            rviews(regions@) =~= regions_upto(s@, i as int),
        decreases n - i,
    {
        match region_at_of(s, i) {
            Some(reg) => {
                regions.push(reg);
            },
            None => {},
        }
        i = i + 1;
    }
    let ghost regs = rviews(regions@);
    let mut cur = slice_of(s, 0, n);
    assert(cur@ =~= s@);
    let mut clean = true;
    let mut k: usize = regions.len();
    assert(regs.take(regs.len() as int) =~= regs);
    while k > 0
        invariant
            k <= regions@.len(),
            regs == rviews(regions@),
            regs == regions_upto(s@, s@.len() as int),
            apply_regions(cur@, regs.take(k as int)) == spec_rewrite_sampler_function_definitions(s@),
            definitions_rewrite_cleanly(s@) == (clean && regions_rewrite_cleanly(cur@, regs.take(k as int))),
        decreases k,
    {
        k = k - 1;
        assert(regs.take(k + 1).drop_last() =~= regs.take(k as int));
        assert(regs.take(k + 1).last() == regs[k as int]);
        let shape = region_shape_of(cur.as_slice(), regions[k].0, regions[k].1);
        clean = clean && shape;
        cur = rewrite_region_of(cur.as_slice(), regions[k].0, regions[k].1, regions[k].2.as_slice());
    }
    assert(regs.take(0) =~= Seq::<(int, int, Seq<(Seq<char>, SamplerKind)>)>::empty());
    (cur, clean)
}

/// Rewrites every function definition with combined sampler parameters.
pub fn rewrite_sampler_function_definitions_in(s: &[char]) -> (r: Vec<char>)
    requires
        definitions_rewrite_cleanly(s@),
    ensures
        r@ == spec_rewrite_sampler_function_definitions(s@),
{
    rewrite_definitions_checked(s).0
}

/// Whether the function definitions of `source` can be rewritten one after
/// the other (see `definitions_rewrite_cleanly`).
pub fn definitions_rewrite_cleanly_of(source: &str) -> (r: bool)
    ensures
        r == definitions_rewrite_cleanly(source@),
{
    let s = chars_of(source);
    rewrite_definitions_checked(s.as_slice()).1
}

/// Rewrites local function definitions that have combined sampler parameters
/// (e.g. `in sampler2D name`) into Vulkan-compatible signatures with separate
/// `texture2D` + `sampler` parameters. Also rewrites the function body to use
/// the new parameter names.
pub fn rewrite_sampler_function_definitions(source: &mut String)
    requires
        definitions_rewrite_cleanly(old(source)@),
    ensures
        final(source)@ == spec_rewrite_sampler_function_definitions(old(source)@),
{
    let s = chars_of(source.as_str());
    let r = rewrite_sampler_function_definitions_in(s.as_slice());
    *source = string_of(r.as_slice());
}

/// Type of a uniform property (Fyrox's `ShaderPropertyKind`, without the
/// default values): scalars, vectors, matrices, color, and arrays of at most
/// `max_len` of them.
#[derive(Debug, Clone, Copy, PartialEq, Eq, Hash, Structural)]
pub enum ShaderPropertyKind {
    Float,
    FloatArray { max_len: usize },
    Int,
    IntArray { max_len: usize },
    UInt,
    UIntArray { max_len: usize },
    Bool,
    Vector2,
    Vector2Array { max_len: usize },
    Vector3,
    Vector3Array { max_len: usize },
    Vector4,
    Vector4Array { max_len: usize },
    Matrix2,
    Matrix2Array { max_len: usize },
    Matrix3,
    Matrix3Array { max_len: usize },
    Matrix4,
    Matrix4Array { max_len: usize },
    Color,
}

/// A named uniform property of a property group.
#[derive(Debug, Clone, PartialEq)]
pub struct ShaderProperty {
    pub name: String,
    pub kind: ShaderPropertyKind,
}

/// What a shader resource is: a texture, or a group of uniform properties.
#[derive(Debug, Clone, PartialEq)]
pub enum ShaderResourceKind {
    Texture { kind: SamplerKind },
    PropertyGroup(Vec<ShaderProperty>),
}

/// A resource of a shader program (Fyrox's `ShaderResourceDefinition`).
#[derive(Debug, Clone, PartialEq)]
pub struct ShaderResourceDefinition {
    /// Name of the uniform in the source code.
    pub name: String,
    /// Kind of the resource.
    pub kind: ShaderResourceKind,
    /// Binding slot of the resource.
    pub binding: usize,
}

/// The GLSL type of a property: booleans are stored as `uint`, colors as `vec4`.
pub open spec fn property_type(k: ShaderPropertyKind) -> Seq<char> {
    match k {
        ShaderPropertyKind::Float | ShaderPropertyKind::FloatArray { .. } => "float"@,
        ShaderPropertyKind::Int | ShaderPropertyKind::IntArray { .. } => "int"@,
        ShaderPropertyKind::UInt | ShaderPropertyKind::UIntArray { .. } | ShaderPropertyKind::Bool => "uint"@,
        ShaderPropertyKind::Vector2 | ShaderPropertyKind::Vector2Array { .. } => "vec2"@,
        ShaderPropertyKind::Vector3 | ShaderPropertyKind::Vector3Array { .. } => "vec3"@,
        ShaderPropertyKind::Vector4 | ShaderPropertyKind::Vector4Array { .. } | ShaderPropertyKind::Color => "vec4"@,
        ShaderPropertyKind::Matrix2 | ShaderPropertyKind::Matrix2Array { .. } => "mat2"@,
        ShaderPropertyKind::Matrix3 | ShaderPropertyKind::Matrix3Array { .. } => "mat3"@,
        ShaderPropertyKind::Matrix4 | ShaderPropertyKind::Matrix4Array { .. } => "mat4"@,
    }
}

/// Scalar type of a GLSL value.
#[derive(Debug, Clone, Copy, PartialEq, Eq, Structural)]
pub enum GlslScalar {
    Float,
    Int,
    UInt,
}

/// The shape of one element of a property's data: its scalar type, columns
/// and rows (1 by 1 for a scalar, 1 by N for an N-vector, N by N for an
/// N-matrix). A boolean is uploaded as an unsigned integer, a color as four
/// floats (RGBA).
pub open spec fn property_shape(k: ShaderPropertyKind) -> (GlslScalar, nat, nat) {
    match k {
        ShaderPropertyKind::Float | ShaderPropertyKind::FloatArray { .. } => (GlslScalar::Float, 1, 1),
        ShaderPropertyKind::Int | ShaderPropertyKind::IntArray { .. } => (GlslScalar::Int, 1, 1),
        ShaderPropertyKind::UInt | ShaderPropertyKind::UIntArray { .. } | ShaderPropertyKind::Bool => (GlslScalar::UInt, 1, 1),
        ShaderPropertyKind::Vector2 | ShaderPropertyKind::Vector2Array { .. } => (GlslScalar::Float, 1, 2),
        ShaderPropertyKind::Vector3 | ShaderPropertyKind::Vector3Array { .. } => (GlslScalar::Float, 1, 3),
        ShaderPropertyKind::Vector4 | ShaderPropertyKind::Vector4Array { .. } => (GlslScalar::Float, 1, 4),
        ShaderPropertyKind::Color => (GlslScalar::Float, 1, 4),
        ShaderPropertyKind::Matrix2 | ShaderPropertyKind::Matrix2Array { .. } => (GlslScalar::Float, 2, 2),
        ShaderPropertyKind::Matrix3 | ShaderPropertyKind::Matrix3Array { .. } => (GlslScalar::Float, 3, 3),
        ShaderPropertyKind::Matrix4 | ShaderPropertyKind::Matrix4Array { .. } => (GlslScalar::Float, 4, 4),
    }
}

/// The shape a GLSL type name declares: `float`, `int` and `uint` are
/// scalars, `vecN` is an N-vector of floats, `matN` an N by N float matrix
/// (N from 2 to 4); other names declare no shape here.
pub open spec fn glsl_type_shape(t: Seq<char>) -> Option<(GlslScalar, nat, nat)> {
    let n = (t.last() as int) - ('0' as int);
    if t == "float"@ {
        Some((GlslScalar::Float, 1, 1))
    } else if t == "int"@ {
        Some((GlslScalar::Int, 1, 1))
    } else if t == "uint"@ {
        Some((GlslScalar::UInt, 1, 1))
    } else if t.len() == 4 && 2 <= n <= 4 && t[0] == 'v' && t[1] == 'e' && t[2] == 'c' {
        Some((GlslScalar::Float, 1, n as nat))
    } else if t.len() == 4 && 2 <= n <= 4 && t[0] == 'm' && t[1] == 'a' && t[2] == 't' {
        Some((GlslScalar::Float, n as nat, n as nat))
    } else {
        None
    }
}

/// Law: the GLSL type declared for a property has the shape of the
/// property's data: scalars of the right type, N-vectors as `vecN`,
/// N-matrices as `matN`, so a std140 block matches what is uploaded.
pub proof fn lemma_property_type_shape(k: ShaderPropertyKind)
    ensures
        glsl_type_shape(property_type(k)) == Some(property_shape(k)),
{
    reveal_strlit("float");
    reveal_strlit("int");
    reveal_strlit("uint");
    reveal_strlit("vec2");
    reveal_strlit("vec3");
    reveal_strlit("vec4");
    reveal_strlit("mat2");
    reveal_strlit("mat3");
    reveal_strlit("mat4");
    let t = property_type(k);
    if t.len() == 4 {
        assert(t != "float"@);
        assert(t != "int"@);
    }
}

/// The array length of an array property.
pub open spec fn property_array_len(k: ShaderPropertyKind) -> Option<usize> {
    match k {
        ShaderPropertyKind::FloatArray { max_len } => Some(max_len),
        ShaderPropertyKind::IntArray { max_len } => Some(max_len),
        ShaderPropertyKind::UIntArray { max_len } => Some(max_len),
        ShaderPropertyKind::Vector2Array { max_len } => Some(max_len),
        ShaderPropertyKind::Vector3Array { max_len } => Some(max_len),
        ShaderPropertyKind::Vector4Array { max_len } => Some(max_len),
        ShaderPropertyKind::Matrix2Array { max_len } => Some(max_len),
        ShaderPropertyKind::Matrix3Array { max_len } => Some(max_len),
        ShaderPropertyKind::Matrix4Array { max_len } => Some(max_len),
        _ => None,
    }
}

fn property_type_of(k: ShaderPropertyKind) -> (r: &'static str)
    ensures
        r@ == property_type(k),
{
    match k {
        ShaderPropertyKind::Float | ShaderPropertyKind::FloatArray { .. } => "float",
        ShaderPropertyKind::Int | ShaderPropertyKind::IntArray { .. } => "int",
        ShaderPropertyKind::UInt | ShaderPropertyKind::UIntArray { .. } | ShaderPropertyKind::Bool => "uint",
        ShaderPropertyKind::Vector2 | ShaderPropertyKind::Vector2Array { .. } => "vec2",
        ShaderPropertyKind::Vector3 | ShaderPropertyKind::Vector3Array { .. } => "vec3",
        ShaderPropertyKind::Vector4 | ShaderPropertyKind::Vector4Array { .. } | ShaderPropertyKind::Color => "vec4",
        ShaderPropertyKind::Matrix2 | ShaderPropertyKind::Matrix2Array { .. } => "mat2",
        ShaderPropertyKind::Matrix3 | ShaderPropertyKind::Matrix3Array { .. } => "mat3",
        ShaderPropertyKind::Matrix4 | ShaderPropertyKind::Matrix4Array { .. } => "mat4",
    }
}

fn property_array_len_of(k: ShaderPropertyKind) -> (r: Option<usize>)
    ensures
        r == property_array_len(k),
{
    match k {
        ShaderPropertyKind::FloatArray { max_len } => Some(max_len),
        ShaderPropertyKind::IntArray { max_len } => Some(max_len),
        ShaderPropertyKind::UIntArray { max_len } => Some(max_len),
        ShaderPropertyKind::Vector2Array { max_len } => Some(max_len),
        ShaderPropertyKind::Vector3Array { max_len } => Some(max_len),
        ShaderPropertyKind::Vector4Array { max_len } => Some(max_len),
        ShaderPropertyKind::Matrix2Array { max_len } => Some(max_len),
        ShaderPropertyKind::Matrix3Array { max_len } => Some(max_len),
        ShaderPropertyKind::Matrix4Array { max_len } => Some(max_len),
        _ => None,
    }
}

/// The declaration of a property inside its block's struct:
/// `\t<type> <name>;` or `\t<type> <name>[<max_len>];`, one per line.
pub open spec fn field_decl(f: ShaderProperty) -> Seq<char> {
    "\t"@ + property_type(f.kind) + " "@ + f.name@ + match property_array_len(f.kind) {
        Some(m) => "["@ + decimal(m as nat) + "]"@,
        None => Seq::<char>::empty(),
    } + ";\n"@
}

/// The declarations of all properties, in order.
pub open spec fn fields_decl(fs: Seq<ShaderProperty>) -> Seq<char>
    decreases fs.len(),
{
    if fs.len() == 0 {
        Seq::empty()
    } else {
        fields_decl(fs.drop_last()) + field_decl(fs.last())
    }
}

/// A property group's declaration: a struct `T<name>` of its properties and
/// a std140 uniform block `U<name>` holding one `T<name> <name>` at the
/// group's buffer slot.
pub open spec fn group_block(name: Seq<char>, fields: Seq<ShaderProperty>, binding: usize) -> Seq<char> {
    "struct T"@ + name + "{\n"@ + fields_decl(fields) + "};\n"@
        + "layout(std140, binding="@ + decimal((binding + 200) as nat) + ") uniform U"@ + name
        + " { T"@ + name + " "@ + name + "; };\n"@
}

/// A texture's declarations: the texture `<name>_tex` at its slot and the
/// sampler `<name>_samp` at its sampler slot.
pub open spec fn texture_decl(name: Seq<char>, kind: SamplerKind, binding: usize) -> Seq<char> {
    "layout(binding="@ + decimal(binding as nat) + ") uniform "@ + spec_vulkan_texture_type(kind) + " "@ + name + "_tex;\n"@
        + "layout(binding="@ + decimal((binding + 100) as nat) + ") uniform sampler "@ + name + "_samp;\n"@
}

/// Processes resources in order: each nonempty property group's block is
/// put in front of the source; the texture declarations are collected.
/// Returns the source so far and the texture declarations so far.
pub open spec fn decl_fold(src: Seq<char>, rs: Seq<ShaderResourceDefinition>) -> (Seq<char>, Seq<char>)
    decreases rs.len(),
{
    if rs.len() == 0 {
        (src, Seq::empty())
    } else {
        let (s, t) = decl_fold(src, rs.drop_last());
        let r = rs.last();
        match r.kind {
            ShaderResourceKind::Texture { kind } => (s, t + texture_decl(r.name@, kind, r.binding)),
            ShaderResourceKind::PropertyGroup(fields) => if fields@.len() == 0 {
                (s, t)
            } else {
                (group_block(r.name@, fields@, r.binding) + s, t)
            },
        }
    }
}

/// The source with all resource declarations in front: the texture
/// declarations (in resource order), then the property group blocks (the
/// last group first), then the given source.
pub open spec fn spec_declared_source(src: Seq<char>, rs: Seq<ShaderResourceDefinition>) -> Seq<char> {
    decl_fold(src, rs).1 + decl_fold(src, rs).0
}

/// A resource's slot numbers fit in `usize`.
pub open spec fn resource_slots_fit(r: ShaderResourceDefinition) -> bool {
    match r.kind {
        ShaderResourceKind::Texture { .. } => r.binding + 100 <= usize::MAX,
        ShaderResourceKind::PropertyGroup(fields) => fields@.len() == 0 || r.binding + 200 <= usize::MAX,
    }
}

/// Whether the slot numbers of every resource fit.
pub fn resource_slots_fit_of(resources: &[ShaderResourceDefinition]) -> (r: bool)
    ensures
        r == forall|i: int| 0 <= i < resources@.len() ==> resource_slots_fit(#[trigger] resources@[i]),
{
    let mut i: usize = 0;
    while i < resources.len()
        invariant
            0 <= i <= resources@.len(),
            forall|k: int| 0 <= k < i ==> resource_slots_fit(#[trigger] resources@[k]),
        decreases resources@.len() - i,
    {
        let r = &resources[i];
        let ok = match &r.kind {
            ShaderResourceKind::Texture { .. } => r.binding <= usize::MAX - 100,
            ShaderResourceKind::PropertyGroup(fields) => fields.len() == 0 || r.binding <= usize::MAX - 200,
        };
        if !ok {
            assert(!resource_slots_fit(resources@[i as int]));
            return false;
        }
        i = i + 1;
    }
    true
}

proof fn lemma_decl_fold_step(src: Seq<char>, rs: Seq<ShaderResourceDefinition>)
    requires
        rs.len() > 0,
    ensures
        count_char(decl_fold(src, rs.drop_last()).0, '\n') <= count_char(decl_fold(src, rs).0, '\n'),
        count_char(decl_fold(src, rs.drop_last()).1, '\n') <= count_char(decl_fold(src, rs).1, '\n'),
{
    let (s, t) = decl_fold(src, rs.drop_last());
    let r = rs.last();
    match r.kind {
        ShaderResourceKind::Texture { kind } => {
            lemma_count_char_concat(t, texture_decl(r.name@, kind, r.binding), '\n');
        },
        ShaderResourceKind::PropertyGroup(fields) => {
            if fields@.len() > 0 {
                lemma_count_char_concat(group_block(r.name@, fields@, r.binding), s, '\n');
            }
        },
    }
}

proof fn lemma_decl_fold_src(src: Seq<char>, rs: Seq<ShaderResourceDefinition>)
    ensures
        count_char(src, '\n') <= count_char(decl_fold(src, rs).0, '\n'),
    decreases rs.len(),
{
    if rs.len() > 0 {
        lemma_decl_fold_src(src, rs.drop_last());
        lemma_decl_fold_step(src, rs);
    }
}

fn field_decl_of(f: &ShaderProperty) -> (r: Vec<char>)
    ensures
        r@ == field_decl(*f),
{
    let mut v = chars_of("\t");
    push_all(&mut v, chars_of(property_type_of(f.kind)).as_slice());
    push_all(&mut v, chars_of(" ").as_slice());
    push_all(&mut v, chars_of(f.name.as_str()).as_slice());
    let ghost mid = v@;
    match property_array_len_of(f.kind) {
        Some(m) => {
            push_all(&mut v, chars_of("[").as_slice());
            push_all(&mut v, decimal_of(m).as_slice());
            push_all(&mut v, chars_of("]").as_slice());
        },
        None => {},
    }
    push_all(&mut v, chars_of(";\n").as_slice());
    assert(v@ =~= field_decl(*f));
    v
}

fn fields_decl_of(fs: &[ShaderProperty]) -> (r: Vec<char>)
    ensures
        r@ == fields_decl(fs@),
{
    let mut v: Vec<char> = Vec::new();
    let mut i: usize = 0;
    while i < fs.len()
        invariant
            0 <= i <= fs@.len(),
            v@ == fields_decl(fs@.take(i as int)),
        decreases fs@.len() - i,
    {
        assert(fs@.take(i + 1).drop_last() =~= fs@.take(i as int));
        push_all(&mut v, field_decl_of(&fs[i]).as_slice());
        i = i + 1;
    }
    assert(fs@.take(fs@.len() as int) =~= fs@);
    v
}

fn group_block_of(name: &[char], fields: &[ShaderProperty], binding: usize) -> (r: Vec<char>)
    requires
        binding + 200 <= usize::MAX,
    ensures
        r@ == group_block(name@, fields@, binding),
{
    let mut v = chars_of("struct T");
    push_all(&mut v, name);
    push_all(&mut v, chars_of("{\n").as_slice());
    push_all(&mut v, fields_decl_of(fields).as_slice());
    push_all(&mut v, chars_of("};\n").as_slice());
    push_all(&mut v, chars_of("layout(std140, binding=").as_slice());
    push_all(&mut v, decimal_of(binding + 200).as_slice());
    push_all(&mut v, chars_of(") uniform U").as_slice());
    push_all(&mut v, name);
    push_all(&mut v, chars_of(" { T").as_slice());
    push_all(&mut v, name);
    push_all(&mut v, chars_of(" ").as_slice());
    push_all(&mut v, name);
    push_all(&mut v, chars_of("; };\n").as_slice());
    assert(v@ =~= group_block(name@, fields@, binding));
    v
}

fn texture_decl_of(name: &[char], kind: SamplerKind, binding: usize) -> (r: Vec<char>)
    requires
        binding + 100 <= usize::MAX,
    ensures
        r@ == texture_decl(name@, kind, binding),
{
    let mut v = chars_of("layout(binding=");
    push_all(&mut v, decimal_of(binding).as_slice());
    push_all(&mut v, chars_of(") uniform ").as_slice());
    push_all(&mut v, chars_of(vulkan_texture_type(kind)).as_slice());
    push_all(&mut v, chars_of(" ").as_slice());
    push_all(&mut v, name);
    push_all(&mut v, chars_of("_tex;\n").as_slice());
    push_all(&mut v, chars_of("layout(binding=").as_slice());
    push_all(&mut v, decimal_of(binding + 100).as_slice());
    push_all(&mut v, chars_of(") uniform sampler ").as_slice());
    push_all(&mut v, name);
    push_all(&mut v, chars_of("_samp;\n").as_slice());
    assert(v@ =~= texture_decl(name@, kind, binding));
    v
}

/// The declarations of all resources in front of `source`: texture and
/// sampler declarations first, then the uniform blocks of the property groups.
pub fn declared_source_of(resources: &[ShaderResourceDefinition], source: &[char]) -> (r: Vec<char>)
    requires
        forall|i: int| 0 <= i < resources@.len() ==> resource_slots_fit(#[trigger] resources@[i]),
    ensures
        r@ == spec_declared_source(source@, resources@),
{
    let ghost rs = resources@;
    let mut src: Vec<char> = Vec::new();
    push_all(&mut src, source);
    let mut tex: Vec<char> = Vec::new();
    assert(rs.take(0) =~= Seq::<ShaderResourceDefinition>::empty());
    assert(src@ =~= source@);
    let mut i: usize = 0;
    while i < resources.len()
        invariant
            0 <= i <= rs.len(),
            rs == resources@,
            forall|k: int| 0 <= k < rs.len() ==> resource_slots_fit(#[trigger] rs[k]),
            (src@, tex@) == decl_fold(source@, rs.take(i as int)),
        decreases rs.len() - i,
    {
        assert(rs.take(i + 1).drop_last() =~= rs.take(i as int));
        assert(rs.take(i + 1).last() == rs[i as int]);
        let r = &resources[i];
        let name = chars_of(r.name.as_str());
        match &r.kind {
            ShaderResourceKind::Texture { kind } => {
                let decl = texture_decl_of(name.as_slice(), *kind, r.binding);
                push_all(&mut tex, decl.as_slice());
            },
            ShaderResourceKind::PropertyGroup(fields) => {
                if fields.len() > 0 {
                    let mut next = group_block_of(name.as_slice(), fields.as_slice(), r.binding);
                    push_all(&mut next, src.as_slice());
                    src = next;
                }
            },
        }
        i = i + 1;
    }
    assert(rs.take(rs.len() as int) =~= rs);
    let mut out = tex;
    push_all(&mut out, src.as_slice());
    out
}

/// Generates separate texture + sampler uniform declarations for wgpu bindings,
/// plus uniform block declarations with `layout(std140, binding=...)`, in
/// front of `source`; `line_offset` goes down by the number of lines added.
pub fn generate_resource_declarations(resources: &[ShaderResourceDefinition], source: &mut String, line_offset: &mut isize)
    requires
        forall|i: int| 0 <= i < resources@.len() ==> resource_slots_fit(#[trigger] resources@[i]),
        count_char(spec_declared_source(old(source)@, resources@), '\n') - count_char(old(source)@, '\n') <= isize::MAX,
        *old(line_offset) - (count_char(spec_declared_source(old(source)@, resources@), '\n') - count_char(old(source)@, '\n')) >= isize::MIN,
    ensures
        final(source)@ == spec_declared_source(old(source)@, resources@),
        *final(line_offset) == *old(line_offset) - (count_char(final(source)@, '\n') - count_char(old(source)@, '\n')),
{
    let src = chars_of(source.as_str());
    let out = declared_source_of(resources, src.as_slice());
    proof {
        let (sf, tf) = decl_fold(src@, resources@);
        lemma_count_char_concat(tf, sf, '\n');
        lemma_decl_fold_src(src@, resources@);
    }
    let added = count_of(out.as_slice(), '\n') - count_of(src.as_slice(), '\n');
    *line_offset = *line_offset - added as isize;
    *source = string_of(out.as_slice());
}

/// Length in bytes of a name's UTF-8 encoding (`str::len`).
pub open spec fn name_bytes(n: Seq<char>) -> usize {
    vstd::utf8::encode_utf8(n).len() as usize
}

/// The texture resources, as (name, sampler kind), in resource order.
pub open spec fn texture_entries(rs: Seq<ShaderResourceDefinition>) -> Seq<(Seq<char>, SamplerKind)>
    decreases rs.len(),
{
    if rs.len() == 0 {
        Seq::empty()
    } else {
        let rest = texture_entries(rs.drop_last());
        match rs.last().kind {
            ShaderResourceKind::Texture { kind } => rest.push((rs.last().name@, kind)),
            _ => rest,
        }
    }
}

/// The first position from `j` on whose name is shorter than `len` bytes.
pub open spec fn first_shorter(sorted: Seq<(Seq<char>, SamplerKind)>, len: usize, j: int) -> int
    decreases sorted.len() - j,
{
    if j < 0 || j >= sorted.len() {
        sorted.len() as int
    } else if name_bytes(sorted[j].0) < len {
        j
    } else {
        first_shorter(sorted, len, j + 1)
    }
}

/// `xs` ordered by name length, longest first, keeping the order of names of
/// equal length (a stable sort).
pub open spec fn sort_by_len_desc(xs: Seq<(Seq<char>, SamplerKind)>) -> Seq<(Seq<char>, SamplerKind)>
    decreases xs.len(),
{
    if xs.len() == 0 {
        Seq::empty()
    } else {
        let sorted = sort_by_len_desc(xs.drop_last());
        sorted.insert(first_shorter(sorted, name_bytes(xs.last().0), 0), xs.last())
    }
}

/// For each boolean property `f` of block `block`, `block.f` becomes `bool(block.f)`.
pub open spec fn bool_fields_fold(s: Seq<char>, block: Seq<char>, fields: Seq<ShaderProperty>) -> Seq<char>
    decreases fields.len(),
{
    if fields.len() == 0 {
        s
    } else {
        let prev = bool_fields_fold(s, block, fields.drop_last());
        let f = fields.last();
        if f.kind == ShaderPropertyKind::Bool {
            replace_all(prev, block + "."@ + f.name@, "bool("@ + block + "."@ + f.name@ + ")"@)
        } else {
            prev
        }
    }
}

/// The boolean property accesses of every property group, in order.
pub open spec fn bool_fold(s: Seq<char>, rs: Seq<ShaderResourceDefinition>) -> Seq<char>
    decreases rs.len(),
{
    if rs.len() == 0 {
        s
    } else {
        let prev = bool_fold(s, rs.drop_last());
        match rs.last().kind {
            ShaderResourceKind::PropertyGroup(fields) => bool_fields_fold(prev, rs.last().name@, fields@),
            _ => prev,
        }
    }
}

/// The source after preprocessing for naga:
/// 1. local function definitions with sampler params get separate texture +
///    sampler params;
/// 2. the uses of every texture resource are rewritten, longest name first;
/// 3. `gl_InstanceID` becomes `int(gl_InstanceIndex + 0)` and `gl_VertexID`
///    becomes `int(gl_VertexIndex + 0)`;
/// 4. `group.boolField` becomes `bool(group.boolField)` (uint→bool cast).
pub open spec fn spec_preprocess_shader(s: Seq<char>, rs: Seq<ShaderResourceDefinition>) -> Seq<char> {
    let a = spec_rewrite_sampler_function_definitions(s);
    let b = usage_fold(a, sort_by_len_desc(texture_entries(rs)));
    let c = replace_all(
        replace_all(b, "gl_InstanceID"@, "int(gl_InstanceIndex + 0)"@),
        "gl_VertexID"@,
        "int(gl_VertexIndex + 0)"@,
    );
    bool_fold(c, rs)
}

proof fn lemma_first_shorter(sorted: Seq<(Seq<char>, SamplerKind)>, len: usize, j: int)
    requires
        0 <= j <= sorted.len(),
    ensures
        j <= first_shorter(sorted, len, j) <= sorted.len(),
    decreases sorted.len() - j,
{
    if j < sorted.len() && name_bytes(sorted[j].0) >= len {
        lemma_first_shorter(sorted, len, j + 1);
    }
}

fn sorted_texture_entries(resources: &[ShaderResourceDefinition]) -> (r: Vec<(Vec<char>, SamplerKind)>)
    ensures
        pviews(r@) == sort_by_len_desc(texture_entries(resources@)),
{
    let ghost rs = resources@;
    let mut entries: Vec<(Vec<char>, SamplerKind)> = Vec::new();
    let mut lens: Vec<usize> = Vec::new();
    let ghost xs: Seq<(Seq<char>, SamplerKind)> = Seq::empty();
    let mut i: usize = 0;
    while i < resources.len()
        invariant
            0 <= i <= rs.len(),
            rs == resources@,
            xs == texture_entries(rs.take(i as int)),
            pviews(entries@) == sort_by_len_desc(xs),
            lens@.len() == entries@.len(),
            forall|j: int| 0 <= j < lens@.len() ==> lens@[j] == name_bytes(#[trigger] entries@[j].0@),
        decreases rs.len() - i,
    {
        assert(rs.take(i + 1).drop_last() =~= rs.take(i as int));
        assert(rs.take(i + 1).last() == rs[i as int]);
        let r = &resources[i];
        match &r.kind {
            ShaderResourceKind::Texture { kind } => {
                let text = r.name.as_str();
                let name = chars_of(text);
                let len = text.len();
                let ghost sorted = pviews(entries@);
                let mut j: usize = 0;
                while j < entries.len() && lens[j] >= len
                    invariant
                        0 <= j <= entries@.len(),
                        lens@.len() == entries@.len(),
                        sorted == pviews(entries@),
                        forall|k: int| 0 <= k < lens@.len() ==> lens@[k] == name_bytes(#[trigger] entries@[k].0@),
                        first_shorter(sorted, len, j as int) == first_shorter(sorted, len, 0),
                    decreases entries@.len() - j,
                {
                    j = j + 1;
                }
                proof {
                    assert(name_bytes(name@) == len);
                    lemma_first_shorter(sorted, len, 0);
                }
                let ghost e0 = entries@;
                let ghost l0 = lens@;
                entries.insert(j, (name, *kind));
                lens.insert(j, len);
                proof {
                    xs = xs.push((r.name@, *kind));
                    assert(xs.drop_last() =~= texture_entries(rs.take(i as int)));
                    assert(pviews(entries@) =~= sorted.insert(j as int, (r.name@, *kind)));
                    assert forall|k: int| 0 <= k < lens@.len() implies lens@[k] == name_bytes(#[trigger] entries@[k].0@) by {
                        if k < j {
                            assert(entries@[k] == e0[k]);
                        } else if k > j {
                            assert(entries@[k] == e0[k - 1]);
                            assert(lens@[k] == l0[k - 1]);
                        }
                    }
                }
            },
            ShaderResourceKind::PropertyGroup(_) => {},
        }
        i = i + 1;
    }
    assert(rs.take(rs.len() as int) =~= rs);
    entries
}

fn bool_fields_fold_in(s: &mut Vec<char>, block: &[char], fields: &[ShaderProperty])
    ensures
        final(s)@ == bool_fields_fold(old(s)@, block@, fields@),
{
    let ghost s0 = s@;
    let mut i: usize = 0;
    while i < fields.len()
        invariant
            0 <= i <= fields@.len(),
            s@ == bool_fields_fold(s0, block@, fields@.take(i as int)),
        decreases fields@.len() - i,
    {
        assert(fields@.take(i + 1).drop_last() =~= fields@.take(i as int));
        assert(fields@.take(i + 1).last() == fields@[i as int]);
        let f = &fields[i];
        if f.kind == ShaderPropertyKind::Bool {
            let fname = chars_of(f.name.as_str());
            let search = cat3(block, chars_of(".").as_slice(), fname.as_slice());
            let mut replacement = chars_of("bool(");
            push_all(&mut replacement, search.as_slice());
            push_all(&mut replacement, chars_of(")").as_slice());
            assert(replacement@ =~= "bool("@ + block@ + "."@ + f.name@ + ")"@);
            replace_in(s, search.as_slice(), replacement.as_slice());
        }
        i = i + 1;
    }
    assert(fields@.take(fields@.len() as int) =~= fields@);
}

/// Preprocesses shader source for naga/wgpu compatibility.
///
/// Transformations:
/// 1. Local function definitions with sampler params → separate texture + sampler params
/// 2. `texture(name, uv)` → `texture(samplerXxx(name_tex, name_samp), uv)` for all texture functions
/// 3. `textureSize(name, ...)` → `textureSize(name_tex, ...)`
/// 4. Shared function calls with texture args: `S_PointShadow(..., name)` → `S_PointShadow(..., name_tex, name_samp)`
/// 5. `gl_InstanceID` → `int(gl_InstanceIndex + 0)`, `gl_VertexID` → `int(gl_VertexIndex + 0)`
///    (the `+ 0` keeps naga from mistaking the built-in passed to functions with
///    texture/sampler parameters for an unknown function)
/// 6. `properties.boolField` → `bool(properties.boolField)` (uint→bool cast)
pub fn preprocess_shader(source: &mut String, resources: &[ShaderResourceDefinition])
    requires
        definitions_rewrite_cleanly(old(source)@),
    ensures
        final(source)@ == spec_preprocess_shader(old(source)@, resources@),
{
    let s0 = chars_of(source.as_str());
    let mut s = rewrite_sampler_function_definitions_in(s0.as_slice());
    let entries = sorted_texture_entries(resources);
    let mut s = usage_fold_of(s, entries.as_slice());
    replace_in(&mut s, chars_of("gl_InstanceID").as_slice(), chars_of("int(gl_InstanceIndex + 0)").as_slice());
    replace_in(&mut s, chars_of("gl_VertexID").as_slice(), chars_of("int(gl_VertexIndex + 0)").as_slice());
    let ghost c = s@;
    let ghost rs = resources@;
    let mut i: usize = 0;
    while i < resources.len()
        invariant
            0 <= i <= rs.len(),
            rs == resources@,
            s@ == bool_fold(c, rs.take(i as int)),
        decreases rs.len() - i,
    {
        assert(rs.take(i + 1).drop_last() =~= rs.take(i as int));
        assert(rs.take(i + 1).last() == rs[i as int]);
        let r = &resources[i];
        match &r.kind {
            ShaderResourceKind::PropertyGroup(fields) => {
                let block = chars_of(r.name.as_str());
                bool_fields_fold_in(&mut s, block.as_slice(), fields.as_slice());
            },
            ShaderResourceKind::Texture { .. } => {},
        }
        i = i + 1;
    }
    assert(rs.take(rs.len() as int) =~= rs);
    *source = string_of(s.as_slice());
}

/// The full shader text: the GLSL 450 version line, the shared library
/// source, then the shader's own code.
pub open spec fn spec_prepare_source(shared: Seq<char>, code: Seq<char>) -> Seq<char> {
    "#version 450\n// include 'shared.glsl'\n"@ + shared + "\n// end of include\n"@ + code
}

/// Prepends the version line and the shared library (`shared`, the text of
/// `shaders/shared.glsl`) to a shader's code.
pub fn prepare_source(shared: &str, code: &str) -> (r: String)
    ensures
        r@ == spec_prepare_source(shared@, code@),
{
    let mut s = chars_of("#version 450\n// include 'shared.glsl'\n");
    push_all(&mut s, chars_of(shared).as_slice());
    push_all(&mut s, chars_of("\n// end of include\n").as_slice());
    push_all(&mut s, chars_of(code).as_slice());
    string_of(s.as_slice())
}

} // verus!
