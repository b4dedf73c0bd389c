use purescript_language_server::code_actions::{
    create_apply_all_action, error_to_code_action, generate_code_actions, get_code_action_title,
    has_fixable_suggestion,
    is_signature_suggestion,
};
use purescript_language_server::diagnostics::{
    classify, convert_rebuild_errors, rebuild_error_to_diagnostic, Severity,
};
use purescript_language_server::model::{
    default_string, ErrorSuggestion, RebuildError,
};
use purescript_language_server::span::{
    line_start, ranges_overlap, to_editor_range, EditorPosition, EditorRange, ErrorPosition,
};

fn pos(sl: u32, sc: u32, el: u32, ec: u32) -> ErrorPosition {
    ErrorPosition { start_line: sl, end_line: el, start_column: sc, end_column: ec }
}

fn range(sl: u32, sc: u32, el: u32, ec: u32) -> EditorRange {
    EditorRange {
        start: EditorPosition { line: sl, character: sc },
        end: EditorPosition { line: el, character: ec },
    }
}

fn diag(code: &str, p: ErrorPosition, fix: Option<(&str, Option<ErrorPosition>)>) -> RebuildError {
    RebuildError {
        all_spans: None,
        error_code: code.to_string(),
        error_link: None,
        filename: "src/Main.purs".to_string(),
        message: format!("{} here", code),
        module_name: Some("Main".to_string()),
        position: p,
        suggestion: fix.map(|(text, replace_range)| ErrorSuggestion {
            replacement: text.to_string(),
            replace_range,
        }),
    }
}

#[test]
fn span_one_one_maps_to_origin() {
    assert_eq!(to_editor_range(&pos(1, 1, 1, 1)), range(0, 0, 0, 0));
}

#[test]
fn span_zero_saturates_instead_of_wrapping() {
    assert_eq!(to_editor_range(&pos(0, 0, 3, 7)), range(0, 0, 2, 6));
    assert_eq!(to_editor_range(&pos(5, 2, 0, 0)), range(4, 1, 0, 0));
}

#[test]
fn overlap_is_by_line_only() {
    assert!(ranges_overlap(&range(3, 50, 3, 60), &range(3, 0, 3, 1)));
    assert!(ranges_overlap(&range(1, 0, 4, 0), &range(4, 9, 9, 0)));
    assert!(!ranges_overlap(&range(1, 0, 2, 0), &range(3, 0, 4, 0)));
    assert_eq!(line_start(7), range(7, 0, 7, 0));
}

#[test]
fn every_allow_listed_code_is_a_warning() {
    for code in [
        "MissingTypeDeclaration",
        "ImplicitImport",
        "DeprecatedQualifiedSyntax",
        "RedundantUnqualifiedImport",
        "RedundantEmptyHidingImport",
        "DuplicateImport",
        "UnusedImport",
        "UnusedExplicitImport",
        "ShadowedName",
        "UnusedTypeVar",
        "Deprecated",
    ] {
        assert_eq!(classify(code), Severity::Warning, "{}", code);
    }
}

#[test]
fn other_codes_are_errors() {
    for code in ["", "TypesDoNotUnify", "UnknownName", "unusedimport", "UnusedImport ", "Deprecate"] {
        assert_eq!(classify(code), Severity::Error, "{:?}", code);
    }
}

#[test]
fn diagnostic_conversion_keeps_code_and_message() {
    let e = diag("UnusedImport", pos(3, 1, 3, 20), None);
    let d = rebuild_error_to_diagnostic(&e).unwrap();
    assert_eq!(d.range, range(2, 0, 2, 19));
    assert_eq!(d.severity, Severity::Warning);
    assert_eq!(d.code, "UnusedImport");
    assert_eq!(d.source, "purescript");
    assert_eq!(d.message, "UnusedImport here");
    let all = convert_rebuild_errors(&[e.clone(), diag("TypesDoNotUnify", pos(9, 2, 9, 4), None)]);
    assert_eq!(all.len(), 2);
    assert_eq!(all[1].severity, Severity::Error);
    assert_eq!(all[1].range, range(8, 1, 8, 3));
}

#[test]
fn missing_file_name_is_unknown() {
    assert_eq!(default_string(), "unknown");
}

#[test]
fn titles_follow_the_code() {
    assert_eq!(get_code_action_title("UnusedImport"), "Remove import");
    assert_eq!(get_code_action_title("RedundantEmptyHidingImport"), "Remove import");
    assert_eq!(get_code_action_title("DuplicateImport"), "Remove import");
    assert_eq!(get_code_action_title("RedundantUnqualifiedImport"), "Remove import");
    assert_eq!(get_code_action_title("DeprecatedQualifiedSyntax"), "Remove qualified keyword");
    assert_eq!(get_code_action_title("ImplicitImport"), "Make import explicit");
    assert_eq!(get_code_action_title("UnusedExplicitImport"), "Remove unused references");
    assert_eq!(get_code_action_title("MissingTypeDeclaration"), "Apply suggestion");
}

#[test]
fn no_suggestion_no_action() {
    let e = diag("TypesDoNotUnify", pos(2, 1, 2, 5), None);
    assert!(!has_fixable_suggestion(&e));
    assert!(error_to_code_action(&e, "file:///w/src/Main.purs").is_none());
}

#[test]
fn replacement_is_trimmed_at_the_end_and_uses_replace_range() {
    let e = diag("UnusedImport", pos(3, 1, 3, 20), Some(("import Prelude  \n", Some(pos(3, 1, 4, 1)))));
    let a = error_to_code_action(&e, "file:///w/src/Main.purs").unwrap();
    assert_eq!(a.title, "Remove import");
    assert_eq!(a.uri, "file:///w/src/Main.purs");
    assert!(a.is_preferred);
    assert_eq!(a.edits.len(), 1);
    assert_eq!(a.edits[0].new_text, "import Prelude");
    assert_eq!(a.edits[0].range, range(2, 0, 3, 0));
}

#[test]
fn replacement_without_range_uses_the_span() {
    let e = diag("ImplicitImport", pos(4, 1, 4, 15), Some(("  import Data.Maybe (Maybe)", None)));
    let a = error_to_code_action(&e, "u").unwrap();
    assert_eq!(a.edits[0].range, range(3, 0, 3, 14));
    assert_eq!(a.edits[0].new_text, "  import Data.Maybe (Maybe)");
}

#[test]
fn signature_suggestion_is_inserted_above() {
    assert!(is_signature_suggestion("  main :: Effect Unit\n"));
    assert!(!is_signature_suggestion("main = log"));
    assert!(!is_signature_suggestion("foo :: Int"));
    let e = diag("MissingTypeDeclaration", pos(6, 1, 6, 5), Some(("  main :: Effect Unit  ", None)));
    let a = error_to_code_action(&e, "u").unwrap();
    assert_eq!(a.edits[0].range, range(5, 0, 5, 0));
    assert_eq!(a.edits[0].new_text, "main :: Effect Unit\n");
}

#[test]
fn range_actions_keep_fixable_overlapping_only() {
    let errors = vec![
        diag("UnusedImport", pos(3, 1, 3, 20), Some(("", None))),
        diag("TypesDoNotUnify", pos(3, 1, 3, 2), None),
        diag("ImplicitImport", pos(8, 1, 8, 9), Some(("import A (a)", None))),
    ];
    let acts = generate_code_actions("u", &range(2, 5, 2, 5), &errors);
    assert_eq!(acts.len(), 1);
    assert_eq!(acts[0].title, "Remove import");
    let all = generate_code_actions("u", &range(0, 0, 10, 0), &errors);
    assert_eq!(all.len(), 2);
    assert_eq!(all[1].title, "Make import explicit");
}

#[test]
fn three_fixes_keep_the_later_end_and_the_disjoint_one() {
    let errors = vec![
        diag("UnusedImport", pos(10, 1, 10, 5), Some(("a", None))),
        diag("UnusedImport", pos(10, 3, 10, 8), Some(("b", None))),
        diag("UnusedImport", pos(20, 1, 20, 2), Some(("c", None))),
    ];
    let batch = create_apply_all_action("u", &errors).unwrap();
    assert_eq!(batch.edits.len(), 2);
    assert_eq!(batch.title, "Apply all fixes (2 fixes)");
    assert!(!batch.is_preferred);
    assert_eq!(batch.edits[0].new_text, "c");
    assert_eq!(batch.edits[0].range, range(19, 0, 19, 1));
    assert_eq!(batch.edits[1].new_text, "b");
    assert_eq!(batch.edits[1].range, range(9, 2, 9, 7));
}

#[test]
fn equal_ends_keep_the_earlier_one() {
    let errors = vec![
        diag("UnusedImport", pos(4, 1, 4, 9), Some(("first", None))),
        diag("UnusedImport", pos(4, 2, 4, 9), Some(("second", None))),
        diag("TypesDoNotUnify", pos(30, 1, 30, 2), None),
    ];
    let batch = create_apply_all_action("u", &errors).unwrap();
    assert_eq!(batch.edits.len(), 1);
    assert_eq!(batch.edits[0].new_text, "first");
    assert_eq!(batch.title, "Apply all fixes (1 fixes)");
}

#[test]
fn single_fix_gives_no_batch_but_one_action() {
    let errors = vec![
        diag("TypesDoNotUnify", pos(1, 1, 1, 3), None),
        diag("UnusedImport", pos(12, 1, 12, 30), Some(("", None))),
    ];
    assert!(create_apply_all_action("u", &errors).is_none());
    assert_eq!(generate_code_actions("u", &range(11, 0, 11, 0), &errors).len(), 1);
    assert!(create_apply_all_action("u", &[]).is_none());
}

#[test]
fn batch_edits_use_replace_ranges_and_ignore_signature_shape() {
    let errors = vec![
        diag("UnusedImport", pos(2, 1, 2, 5), Some(("x  ", Some(pos(2, 1, 3, 1))))),
        diag("MissingTypeDeclaration", pos(7, 1, 7, 5), Some(("main :: Effect Unit", None))),
    ];
    let batch = create_apply_all_action("file:///a.purs", &errors).unwrap();
    assert_eq!(batch.uri, "file:///a.purs");
    assert_eq!(batch.edits.len(), 2);
    assert_eq!(batch.edits[0].range, range(6, 0, 6, 4));
    assert_eq!(batch.edits[0].new_text, "main :: Effect Unit");
    assert_eq!(batch.edits[1].range, range(1, 0, 2, 0));
    assert_eq!(batch.edits[1].new_text, "x");
}
