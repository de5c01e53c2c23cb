//! naga's GLSL front end, validator and SPIR-V writer.
//!
//! A parsed module is kept together with the stage and the source it was
//! parsed from, and validation results with the module they came from: the
//! only ways to make these values are the calls below, so what validation and
//! emission give can be named as functions of the stage and the source.
use crate::program::ShaderKind;
use vstd::prelude::*;

verus! {

#[verifier::external_type_specification]
#[verifier::external_body]
pub struct ExNagaModule(naga::Module);

#[verifier::external_type_specification]
#[verifier::external_body]
pub struct ExNagaModuleInfo(naga::valid::ModuleInfo);

/// What naga's GLSL front end reports for a source of a stage: `None` when it
/// parses, else the text of its parse errors.
pub uninterp spec fn glsl_parse_failure(kind: ShaderKind, source: Seq<char>) -> Option<Seq<char>>;

/// What naga's validator (all capabilities; with only the expression checks
/// when `expressions`, with no checks otherwise) reports for the module
/// parsed from `source`: `None` when it accepts it, else the error's text.
pub uninterp spec fn glsl_validation_failure(kind: ShaderKind, source: Seq<char>, expressions: bool) -> Option<Seq<char>>;

/// What naga's SPIR-V writer gives for the module parsed from `source` and
/// its information from the validator without checks: the words, or the
/// error's text.
pub uninterp spec fn glsl_spirv(kind: ShaderKind, source: Seq<char>) -> Result<Seq<u32>, Seq<char>>;

/// A module parsed from a GLSL source, with the stage and the source.
pub struct ParsedGlsl {
    module: naga::Module,
    kind: ShaderKind,
    source: String,
}

impl ParsedGlsl {
    pub closed spec fn kind(&self) -> ShaderKind {
        self.kind
    }

    pub closed spec fn source(&self) -> Seq<char> {
        self.source@
    }
}

/// The validator's information on a parsed module.
pub struct GlslInfo {
    info: naga::valid::ModuleInfo,
    kind: ShaderKind,
    source: String,
    expressions: bool,
}

impl GlslInfo {
    pub closed spec fn kind(&self) -> ShaderKind {
        self.kind
    }

    pub closed spec fn source(&self) -> Seq<char> {
        self.source@
    }

    pub closed spec fn expressions(&self) -> bool {
        self.expressions
    }
}

/// Calls `naga::front::glsl::Frontend::parse` (a fresh front end, the stage of
/// `kind`, no defines) on `source`; a failure is rendered with the error's
/// `Display`, a module is kept with the stage and a copy of the source.
///
/// Claims: the outcome is a function of the stage and the source alone (the
/// front end is reset at each parse), named `glsl_parse_failure`.
/// Left unsaid: the front end holds `unreachable!()` arms that guard its own
/// bookkeeping (for instance in its builtin tables, behind an outer match on
/// the same name); no source is known to reach them, and none is excluded.
#[verifier::external_body]
pub(crate) fn parse_glsl(kind: ShaderKind, source: &str) -> (r: Result<ParsedGlsl, String>)
    ensures
        match r {
            Ok(p) => glsl_parse_failure(kind, source@) is None && p.kind() == kind && p.source() == source@,
            Err(m) => glsl_parse_failure(kind, source@) == Some(m@),
        },
{
    let stage = match kind {
        ShaderKind::Vertex => naga::ShaderStage::Vertex,
        ShaderKind::Fragment => naga::ShaderStage::Fragment,
    };
    match naga::front::glsl::Frontend::default().parse(&naga::front::glsl::Options::from(stage), source) {
        Ok(module) => Ok(ParsedGlsl { module, kind, source: source.to_string() }),
        Err(errors) => Err(format!("{errors}")),
    }
}

/// Calls `naga::valid::Validator::validate` with all capabilities and, as
/// flags, `EXPRESSIONS` when `expressions` and none otherwise; a failure is
/// rendered with `Display`.
///
/// Claims: the outcome is a function of the module, hence of the stage and
/// the source it was parsed from, named `glsl_validation_failure`.
/// Left unsaid: the validator holds `unreachable!()` arms for module shapes
/// that the GLSL front end does not build; no parsed module is known to reach
/// them, and none is excluded.
#[verifier::external_body]
pub(crate) fn validate_glsl(parsed: &ParsedGlsl, expressions: bool) -> (r: Result<GlslInfo, String>)
    ensures
        match r {
            Ok(i) => glsl_validation_failure(parsed.kind(), parsed.source(), expressions) is None
                && i.kind() == parsed.kind() && i.source() == parsed.source() && i.expressions() == expressions,
            Err(m) => glsl_validation_failure(parsed.kind(), parsed.source(), expressions) == Some(m@),
        },
{
    let flags = if expressions { naga::valid::ValidationFlags::EXPRESSIONS } else { naga::valid::ValidationFlags::empty() };
    match naga::valid::Validator::new(flags, naga::valid::Capabilities::all()).validate(&parsed.module) {
        Ok(info) => Ok(GlslInfo { info, kind: parsed.kind, source: parsed.source.clone(), expressions }),
        Err(e) => Err(format!("{e}")),
    }
}

/// Calls `naga::back::spv::write_vec` with default options but no writer
/// flags, and no pipeline options; a failure is rendered with `Display`.
///
/// Claims: the outcome is a function of the module and its information,
/// hence of the stage and the source, named `glsl_spirv`. `requires` admits
/// only modules that pass the expression checks: the writer has
/// `unimplemented!()` arms for operand types that only those checks rule out.
#[verifier::external_body]
pub(crate) fn write_glsl_spirv(parsed: &ParsedGlsl, info: &GlslInfo) -> (r: Result<Vec<u32>, String>)
    requires
        info.kind() == parsed.kind(),
        info.source() == parsed.source(),
        !info.expressions(),
        glsl_validation_failure(parsed.kind(), parsed.source(), true) is None,
    ensures
        match r {
            Ok(w) => glsl_spirv(parsed.kind(), parsed.source()) == Ok::<Seq<u32>, Seq<char>>(w@),
            Err(m) => glsl_spirv(parsed.kind(), parsed.source()) == Err::<Seq<u32>, Seq<char>>(m@),
        },
{
    let options = naga::back::spv::Options { flags: naga::back::spv::WriterFlags::empty(), ..Default::default() };
    match naga::back::spv::write_vec(&parsed.module, &info.info, &options, None) {
        Ok(words) => Ok(words),
        Err(e) => Err(format!("{e}")),
    }
}

} // verus!
