//! Diagnostic records as the compiler tools report them.
use vstd::prelude::*;
use crate::span::ErrorPosition;

verus! {

/// An error object in a response of the analysis server.
#[derive(Debug, Clone)]
pub struct IdeError {
    pub code: i32,
    pub message: String,
}

/// The outcome of a single-file rebuild.
#[derive(Debug, Clone)]
pub struct RebuildResult {
    pub result: String,
    pub errors: Option<Vec<RebuildError>>,
    pub warnings: Option<Vec<RebuildError>>,
}

/// One error or warning reported by the compiler.
#[derive(Debug, Clone)]
pub struct RebuildError {
    pub all_spans: Option<Vec<ErrorSpan>>,
    pub error_code: String,
    pub error_link: Option<String>,
    pub filename: String,
    pub message: String,
    pub module_name: Option<String>,
    pub position: ErrorPosition,
    pub suggestion: Option<ErrorSuggestion>,
}

/// A named secondary span of a diagnostic, as `[line, column]` pairs.
#[derive(Debug, Clone)]
pub struct ErrorSpan {
    pub end: [u32; 2],
    pub name: String,
    pub start: [u32; 2],
}

/// A suggested edit: replacement text and, optionally, the span it replaces.
#[derive(Debug, Clone)]
pub struct ErrorSuggestion {
    pub replacement: String,
    pub replace_range: Option<ErrorPosition>,
}

/// The file name given to a diagnostic that names none.
pub open spec fn unknown_file() -> Seq<char> {
    seq!['u', 'n', 'k', 'n', 'o', 'w', 'n']
}

/// The file name used when a diagnostic carries none.
pub fn default_string() -> (r: String)
    ensures
        r@ == unknown_file(),
{
    let r = String::from_str("unknown");
    proof {
        reveal_strlit("unknown");
        assert(r@ =~= unknown_file());
    }
    r
}

/// Whether a diagnostic carries a suggested fix.
pub open spec fn is_fixable(e: RebuildError) -> bool {
    e.suggestion is Some
}

} // verus!
