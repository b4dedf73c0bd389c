//! Severity classification and conversion of compiler diagnostics into editor
//! diagnostics.
use vstd::prelude::*;
use crate::model::RebuildError;
use crate::span::{EditorRange, editor_range_of, to_editor_range};
use crate::text::str_eq;

verus! {

/// How the editor shows a diagnostic.
#[derive(Debug, Clone, Copy, PartialEq, Eq, Structural)]
pub enum Severity {
    Error,
    Warning,
}

/// A diagnostic in editor coordinates.
#[derive(Debug, Clone)]
pub struct EditorDiagnostic {
    pub range: EditorRange,
    pub severity: Severity,
    pub code: String,
    pub source: String,
    pub message: String,
}

/// What an editor diagnostic holds, as mathematical values.
pub struct EditorDiagnosticView {
    pub range: EditorRange,
    pub severity: Severity,
    pub code: Seq<char>,
    pub source: Seq<char>,
    pub message: Seq<char>,
}

impl View for EditorDiagnostic {
    type V = EditorDiagnosticView;

    open spec fn view(&self) -> EditorDiagnosticView {
        EditorDiagnosticView {
            range: self.range,
            severity: self.severity,
            code: self.code@,
            source: self.source@,
            message: self.message@,
        }
    }
}

/// The codes that the editor shows as warnings; every other code is an error.
pub open spec fn is_warning_code(code: Seq<char>) -> bool {
    code == "MissingTypeDeclaration"@ || code == "ImplicitImport"@ || code
        == "DeprecatedQualifiedSyntax"@ || code == "RedundantUnqualifiedImport"@ || code
        == "RedundantEmptyHidingImport"@ || code == "DuplicateImport"@ || code == "UnusedImport"@
        || code == "UnusedExplicitImport"@ || code == "ShadowedName"@ || code == "UnusedTypeVar"@
        || code == "Deprecated"@
}

/// The severity of a diagnostic code.
pub open spec fn severity_of(code: Seq<char>) -> Severity {
    if is_warning_code(code) {
        Severity::Warning
    } else {
        Severity::Error
    }
}

/// The name under which diagnostics are published.
pub open spec fn source_name() -> Seq<char> {
    "purescript"@
}

/// The editor diagnostic for a compiler diagnostic.
pub open spec fn diagnostic_of(e: RebuildError) -> EditorDiagnosticView {
    EditorDiagnosticView {
        range: editor_range_of(e.position),
        severity: severity_of(e.error_code@),
        code: e.error_code@,
        source: source_name(),
        message: e.message@,
    }
}

/// The views of a sequence of editor diagnostics.
pub open spec fn diagnostic_views(ds: Seq<EditorDiagnostic>) -> Seq<EditorDiagnosticView> {
    ds.map_values(|d: EditorDiagnostic| d@)
}

/// The editor diagnostics of a sequence of compiler diagnostics.
pub open spec fn diagnostics_of(es: Seq<RebuildError>) -> Seq<EditorDiagnosticView> {
    es.map_values(|e: RebuildError| diagnostic_of(e))
}

proof fn lemma_views_push(ds: Seq<EditorDiagnostic>, d: EditorDiagnostic)
    ensures
        diagnostic_views(ds.push(d)) == diagnostic_views(ds).push(d@),
{
    assert(diagnostic_views(ds.push(d)) =~= diagnostic_views(ds).push(d@));
}

proof fn lemma_diagnostics_push(es: Seq<RebuildError>, e: RebuildError)
    ensures
        diagnostics_of(es.push(e)) == diagnostics_of(es).push(diagnostic_of(e)),
{
    assert(diagnostics_of(es.push(e)) =~= diagnostics_of(es).push(diagnostic_of(e)));
}

/// Classifies a diagnostic code.
pub fn classify(code: &str) -> (r: Severity)
    ensures
        r == severity_of(code@),
{
    if str_eq(code, "MissingTypeDeclaration") || str_eq(code, "ImplicitImport") || str_eq(
        code,
        "DeprecatedQualifiedSyntax",
    ) || str_eq(code, "RedundantUnqualifiedImport") || str_eq(code, "RedundantEmptyHidingImport")
        || str_eq(code, "DuplicateImport") || str_eq(code, "UnusedImport") || str_eq(
        code,
        "UnusedExplicitImport",
    ) || str_eq(code, "ShadowedName") || str_eq(code, "UnusedTypeVar") || str_eq(
        code,
        "Deprecated",
    ) {
        Severity::Warning
    } else {
        Severity::Error
    }
}

/// The editor diagnostic for a compiler diagnostic; there always is one.
pub fn rebuild_error_to_diagnostic(error: &RebuildError) -> (r: Option<EditorDiagnostic>)
    ensures
        r is Some,
        r->0@ == diagnostic_of(*error),
{
    let source = String::from_str("purescript");
    Some(
        EditorDiagnostic {
            range: to_editor_range(&error.position),
            severity: classify(error.error_code.as_str()),
            code: error.error_code.clone(),
            source,
            message: error.message.clone(),
        },
    )
}

/// The editor diagnostics for a list of compiler diagnostics, in order.
pub fn convert_rebuild_errors(errors: &[RebuildError]) -> (r: Vec<EditorDiagnostic>)
    ensures
        diagnostic_views(r@) == diagnostics_of(errors@),
{
    let mut out: Vec<EditorDiagnostic> = Vec::new();
    let mut i: usize = 0;
    while i < errors.len()
        invariant
            i <= errors@.len(),
            diagnostic_views(out@) == diagnostics_of(errors@.take(i as int)),
        decreases errors@.len() - i,
    {
        let d = rebuild_error_to_diagnostic(&errors[i]);
        match d {
            Some(d) => {
                proof {
                    lemma_views_push(out@, d);
                    lemma_diagnostics_push(errors@.take(i as int), errors@[i as int]);
                }
                out.push(d);
            },
            None => {},
        }
        assert(errors@.take(i + 1) =~= errors@.take(i as int).push(errors@[i as int]));
        i = i + 1;
    }
    assert(errors@.take(errors@.len() as int) =~= errors@);
    out
}

} // verus!
