//! Markdown to DOCX/HWPX conversion core.
use vstd::prelude::*;

pub mod diagnostics;
pub mod error;
pub mod generators;
pub mod laws;
pub mod models;
pub mod parser;
pub mod report;
pub mod tools;
pub mod utils;

pub use crate::error::CoreRsError;
pub use crate::generators::docx::DocxOptions;
pub use crate::generators::hwpx::generator::HwpxPackageParts;
pub use crate::generators::hwpx::style::{HwpxOptions, HwpxParagraphAlign, HwpxStyleOptions};
pub use crate::report::{ConversionIssue, ConversionReport, ConversionTarget, IssueSeverity};

use crate::diagnostics::{analyze_markdown_impl, report_for_mode, spec_analyze, spec_report_for_mode};
use crate::error::ErrorV;
use crate::generators::docx::{DocxGenerator, docx_result_holds, opt_string_view};
use crate::generators::hwpx::generator::{HwpxGenerator, hwpx_result_holds};
use crate::generators::hwpx::normalize::{normalize_hwpx_markdown, spec_normalize_markdown};
use crate::utils::text::owned;
use crate::parser::markdown::{MarkdownParser, spec_parse_markdown};
use crate::report::{ReportV, spec_with_error_issue};

verus! {

/// A generated package and the report of the conversion.
#[derive(Debug, PartialEq, Eq)]
pub struct GenerationResult {
    pub bytes: Vec<u8>,
    pub report: ConversionReport,
}

/// A failed conversion: the error, and the report with the error recorded in it.
#[derive(Debug)]
pub struct GenerationFailure {
    pub error: CoreRsError,
    pub report: ConversionReport,
}

/// What converting markdown to DOCX gives: the parse error, or what generating
/// the parsed document gives.
pub open spec fn generate_docx_holds(r: Result<Vec<u8>, CoreRsError>, markdown: Seq<char>, options: DocxOptions) -> bool {
    match spec_parse_markdown(options.strict_mode, markdown) {
        Err(e) => r matches Err(x) && x@ == e,
        Ok(blocks) => docx_result_holds(r, blocks, opt_string_view(options.title), opt_string_view(options.author)),
    }
}

/// The outcome of a conversion with a report: the package or the error, as the
/// conversion alone gives them; on success the report for the mode, on failure
/// that report with the error recorded in it.
pub open spec fn with_report_holds(
    r: Result<GenerationResult, GenerationFailure>,
    outcome: Result<Vec<u8>, CoreRsError>,
    report: ReportV,
) -> bool {
    match r {
        Ok(g) => outcome matches Ok(b) && b@ == g.bytes@ && g.report@ == report,
        Err(f) => outcome matches Err(e) && e@ == f.error@ && f.report@ == spec_with_error_issue(report, f.error@),
    }
}

/// Converts markdown to a DOCX package.
pub fn generate_docx(markdown: &str, options: DocxOptions) -> (r: Result<Vec<u8>, CoreRsError>)
    ensures
        generate_docx_holds(r, markdown@, options),
{
    let document = MarkdownParser::new(options.strict_mode).parse(markdown)?;
    DocxGenerator::new(options).generate(&document)
}

/// The issues that converting markdown to a target would raise.
pub fn analyze_markdown(markdown: &str, target: ConversionTarget) -> (r: ConversionReport)
    ensures
        r@ == spec_analyze(markdown@, target),
{
    analyze_markdown_impl(markdown, target)
}

/// What converting markdown to DOCX with a report gives: an outcome of the
/// conversion alone, with the report for the mode.
pub open spec fn docx_report_holds(r: Result<GenerationResult, GenerationFailure>, markdown: Seq<char>, options: DocxOptions) -> bool {
    exists|outcome: Result<Vec<u8>, CoreRsError>|
        #![trigger generate_docx_holds(outcome, markdown, options)]
        generate_docx_holds(outcome, markdown, options) && with_report_holds(
            r,
            outcome,
            spec_report_for_mode(spec_analyze(markdown, ConversionTarget::Docx), ConversionTarget::Docx, options.strict_mode),
        )
}

/// Converts markdown to a DOCX package, with the report of the conversion.
pub fn generate_docx_with_report(markdown: &str, options: DocxOptions) -> (r: Result<GenerationResult, GenerationFailure>)
    ensures
        docx_report_holds(r, markdown@, options),
{
    let analysis = analyze_markdown(markdown, ConversionTarget::Docx);
    let report = report_for_mode(&analysis, ConversionTarget::Docx, options.strict_mode);
    let ghost opts = options;
    let outcome = generate_docx(markdown, options);
    let ghost g = outcome;
    match outcome {
        Ok(bytes) => {
            let r = Ok(GenerationResult { bytes, report });
            assert(with_report_holds(r, g, report@));
            r
        },
        Err(error) => {
            let failure_report = report.with_error_issue(&error);
            let r = Err(GenerationFailure { error, report: failure_report });
            assert(with_report_holds(r, g, report@));
            r
        },
    }
}

/// The markdown that HWPX conversion parses: as given in strict mode, else with
/// ordered list items indented by two spaces indented by three.
pub open spec fn hwpx_input(markdown: Seq<char>, strict: bool) -> Seq<char> {
    if strict {
        markdown
    } else {
        spec_normalize_markdown(markdown)
    }
}

/// What converting markdown to HWPX gives: the parse error, or what generating
/// the parsed document gives.
pub open spec fn generate_hwpx_holds(r: Result<Vec<u8>, CoreRsError>, markdown: Seq<char>, options: HwpxOptions, parts: HwpxPackageParts) -> bool {
    match spec_parse_markdown(options.strict_mode, hwpx_input(markdown, options.strict_mode)) {
        Err(e) => r matches Err(x) && x@ == e,
        Ok(blocks) => hwpx_result_holds(r, blocks, options, parts),
    }
}

/// Converts markdown to an HWPX package built on the given fixed parts.
pub fn generate_hwpx(markdown: &str, options: HwpxOptions, parts: HwpxPackageParts) -> (r: Result<Vec<u8>, CoreRsError>)
    ensures
        generate_hwpx_holds(r, markdown@, options, parts),
{
    let input = if options.strict_mode { owned(markdown) } else { normalize_hwpx_markdown(markdown) };
    let document = MarkdownParser::new(options.strict_mode).parse(input.as_str())?;
    HwpxGenerator::new(options, parts).generate(&document)
}

/// What converting markdown to HWPX with a report gives: an outcome of the
/// conversion alone, with the report for the mode.
pub open spec fn hwpx_report_holds(
    r: Result<GenerationResult, GenerationFailure>,
    markdown: Seq<char>,
    options: HwpxOptions,
    parts: HwpxPackageParts,
) -> bool {
    exists|outcome: Result<Vec<u8>, CoreRsError>|
        #![trigger generate_hwpx_holds(outcome, markdown, options, parts)]
        generate_hwpx_holds(outcome, markdown, options, parts) && with_report_holds(
            r,
            outcome,
            spec_report_for_mode(spec_analyze(markdown, ConversionTarget::Hwpx), ConversionTarget::Hwpx, options.strict_mode),
        )
}

/// Converts markdown to an HWPX package, with the report of the conversion.
pub fn generate_hwpx_with_report(markdown: &str, options: HwpxOptions, parts: HwpxPackageParts) -> (r: Result<GenerationResult, GenerationFailure>)
    ensures
        hwpx_report_holds(r, markdown@, options, parts),
{
    let analysis = analyze_markdown(markdown, ConversionTarget::Hwpx);
    let report = report_for_mode(&analysis, ConversionTarget::Hwpx, options.strict_mode);
    let strict_mode = options.strict_mode;
    let outcome = generate_hwpx(markdown, options, parts);
    let ghost g = outcome;
    match outcome {
        Ok(bytes) => {
            let r = Ok(GenerationResult { bytes, report });
            assert(with_report_holds(r, g, report@));
            r
        },
        Err(error) => {
            let failure_report = report.with_error_issue(&error);
            let r = Err(GenerationFailure { error, report: failure_report });
            assert(with_report_holds(r, g, report@));
            r
        },
    }
}

/// A readable dump of what parsing an HWPX package gives, for inspecting it.
pub fn debug_parse_hwpx(bytes: &[u8]) -> (r: Result<String, CoreRsError>)
    ensures
        crate::parser::hwpx::dump_holds(bytes@, r),
        bytes@.len() < 22 ==> (r matches Err(e) && crate::parser::hwpx::package::error_fits(
            crate::parser::hwpx::package::LoadErrorV::NotOpened,
            e@,
        )),
{
    crate::parser::hwpx::debug_dump(bytes)
}

} // verus!
