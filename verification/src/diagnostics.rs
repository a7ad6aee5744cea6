//! Turning the findings of the lint engine, which speak of byte ranges, into
//! diagnostics in editor coordinates.

use crate::buffer::rope_text;
use crate::coords::{is_position_of_byte, tree_sitter_range_to_lsp_range, Range};
use crate::text::utf8_len;
use ropey::Rope;
use vstd::prelude::*;

verus! {

/// One finding of the lint engine: what it says, the rule that found it, and
/// the bytes `[start_byte, end_byte)` of the document that it is about.
pub struct Violation {
    pub message: String,
    pub rule_name: String,
    pub start_byte: usize,
    pub end_byte: usize,
}

/// How grave a diagnostic is.
#[derive(Clone, Copy, Debug, PartialEq, Eq, Structural)]
pub enum DiagnosticSeverity {
    Error,
    Warning,
    Information,
    Hint,
}

/// One finding as the editor shows it.
pub struct Diagnostic {
    pub range: Range,
    pub severity: DiagnosticSeverity,
    pub code: String,
    pub source: String,
    pub message: String,
}

/// A violation lies within `s` when both ends of its byte range do.
pub open spec fn violation_in_bounds(s: Seq<char>, violation: Violation) -> bool {
    violation.start_byte <= utf8_len(s) && violation.end_byte <= utf8_len(s)
}

/// True when `diagnostic` reports `violation` for a document with text `s`:
/// same message, the rule's name as code, the engine's name as source, the
/// severity of an error, and the editor range of the violation's bytes.
pub open spec fn reports(s: Seq<char>, violation: Violation, diagnostic: Diagnostic) -> bool {
    &&& diagnostic.message@ == violation.message@
    &&& diagnostic.code@ == violation.rule_name@
    &&& diagnostic.source@ == "tree-sitter-lint"@
    &&& diagnostic.severity == DiagnosticSeverity::Error
    &&& is_position_of_byte(s, violation.start_byte as int, diagnostic.range.start)
    &&& is_position_of_byte(s, violation.end_byte as int, diagnostic.range.end)
}

/// The diagnostic that reports one violation.
pub fn diagnostic_for(file_contents: &Rope, violation: &Violation) -> (diagnostic: Diagnostic)
    requires
        violation_in_bounds(rope_text(*file_contents), *violation),
    ensures
        reports(rope_text(*file_contents), *violation, diagnostic),
{
    Diagnostic {
        message: violation.message.clone(),
        range: tree_sitter_range_to_lsp_range(
            file_contents,
            violation.start_byte,
            violation.end_byte,
        ),
        severity: DiagnosticSeverity::Error,
        code: violation.rule_name.clone(),
        source: "tree-sitter-lint".to_owned(),
    }
}

/// The diagnostics to publish for a document: one for each violation, in the
/// order of the violations.
pub fn diagnostics_for(file_contents: &Rope, violations: &Vec<Violation>) -> (diagnostics: Vec<
    Diagnostic,
>)
    requires
        forall|i: int|
            0 <= i < violations.len() ==> violation_in_bounds(
                rope_text(*file_contents),
                #[trigger] violations[i],
            ),
    ensures
        diagnostics.len() == violations.len(),
        forall|i: int|
            0 <= i < violations.len() ==> reports(
                rope_text(*file_contents),
                violations[i],
                #[trigger] diagnostics[i],
            ),
{
    let mut diagnostics: Vec<Diagnostic> = Vec::new();
    let mut i: usize = 0;
    while i < violations.len()
        invariant
            i <= violations.len(),
            diagnostics.len() == i,
            forall|j: int|
                0 <= j < violations.len() ==> violation_in_bounds(
                    rope_text(*file_contents),
                    #[trigger] violations[j],
                ),
            forall|j: int|
                0 <= j < i ==> reports(
                    rope_text(*file_contents),
                    violations[j],
                    #[trigger] diagnostics[j],
                ),
        decreases violations.len() - i,
    {
        diagnostics.push(diagnostic_for(file_contents, &violations[i]));
        i += 1;
    }
    diagnostics
}

/// Tells whether a violation lies within the buffer.
pub fn is_in_bounds(file_contents: &Rope, violation: &Violation) -> (inside: bool)
    ensures
        inside == violation_in_bounds(rope_text(*file_contents), *violation),
{
    let len_bytes = file_contents.len_bytes();
    violation.start_byte <= len_bytes && violation.end_byte <= len_bytes
}

/// The diagnostics to publish, or `None` where a violation does not lie
/// within the buffer.
pub fn checked_diagnostics_for(file_contents: &Rope, violations: &Vec<Violation>) -> (r: Option<
    Vec<Diagnostic>,
>)
    ensures
        r is Some <==> forall|i: int|
            0 <= i < violations.len() ==> violation_in_bounds(
                rope_text(*file_contents),
                #[trigger] violations[i],
            ),
        r matches Some(diagnostics) ==> {
            &&& diagnostics.len() == violations.len()
            &&& forall|i: int|
                0 <= i < violations.len() ==> reports(
                    rope_text(*file_contents),
                    violations[i],
                    #[trigger] diagnostics[i],
                )
        },
{
    let mut i: usize = 0;
    while i < violations.len()
        invariant
            i <= violations.len(),
            forall|j: int|
                0 <= j < i ==> violation_in_bounds(
                    rope_text(*file_contents),
                    #[trigger] violations[j],
                ),
        decreases violations.len() - i,
    {
        if !is_in_bounds(file_contents, &violations[i]) {
            return None;
        }
        i += 1;
    }
    Some(diagnostics_for(file_contents, violations))
}

} // verus!
