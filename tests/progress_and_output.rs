use purescript_language_server::build_output::{
    add_compiler_output, add_records_to, structured_lines, visible_build_groups, CompilerOutput,
    FileDiagnostics,
};
use purescript_language_server::build_runner::{
    build_args, build_result, command_for, join_lines, BuildMode, ServerCommand,
};
use purescript_language_server::model::RebuildError;
use purescript_language_server::progress::{
    parse_single_progress_line, progress_event, progress_message, progress_percentage,
};
use purescript_language_server::span::ErrorPosition;

fn record(code: &str, file: &str, line: u32) -> RebuildError {
    RebuildError {
        all_spans: None,
        error_code: code.to_string(),
        error_link: None,
        filename: file.to_string(),
        message: "m".to_string(),
        module_name: None,
        position: ErrorPosition { start_line: line, end_line: line, start_column: 1, end_column: 2 },
        suggestion: None,
    }
}

#[test]
fn compiling_line_is_read() {
    assert_eq!(
        parse_single_progress_line("[2 of 5] Compiling Data.Maybe"),
        Some((2, 5, "Data.Maybe".to_string()))
    );
}

#[test]
fn skipping_line_is_read() {
    assert_eq!(
        parse_single_progress_line("  [10 of 120] Skipping Main  \r"),
        Some((10, 120, "Main".to_string()))
    );
}

#[test]
fn progress_found_after_other_text() {
    assert_eq!(
        parse_single_progress_line("info: [1 of 3] Compiling A.B (src/A/B.purs)"),
        Some((1, 3, "A.B (src/A/B.purs)".to_string()))
    );
    assert_eq!(
        parse_single_progress_line("[x of 2] [4 of 9] Compiling Q"),
        Some((4, 9, "Q".to_string()))
    );
}

#[test]
fn partial_progress_lines_are_not_read() {
    for line in [
        "[2 of] Compiling X",
        "[ of 5] Compiling X",
        "[2 of 5] Compiling ",
        "[2 of 5] Linking X",
        "2 of 5] Compiling X",
        "[2 of 5]Compiling X",
        "",
        "Compiling X",
    ] {
        assert_eq!(parse_single_progress_line(line), None, "{:?}", line);
    }
}

#[test]
fn oversized_progress_numbers_are_not_read() {
    assert_eq!(parse_single_progress_line("[4294967296 of 5] Compiling X"), None);
    assert_eq!(
        parse_single_progress_line("[4294967295 of 007] Compiling X"),
        Some((4294967295, 7, "X".to_string()))
    );
}

#[test]
fn percentage_rounds_down_and_skips_zero_total() {
    assert_eq!(progress_percentage(1, 3), Some(33));
    assert_eq!(progress_percentage(5, 5), Some(100));
    assert_eq!(progress_percentage(0, 7), Some(0));
    assert_eq!(progress_percentage(3, 0), None);
    assert_eq!(progress_percentage(u32::MAX, 1), Some(u32::MAX));
}

#[test]
fn progress_message_and_event() {
    assert_eq!(progress_message(2, 5, "Main"), "[2/5] Main");
    let ev = progress_event("[7 of 8] Compiling Data.List").unwrap();
    assert_eq!(ev.message, "[7/8] Data.List");
    assert_eq!(ev.percentage, Some(87));
    assert_eq!(ev.current, 7);
    assert_eq!(ev.module_name, "Data.List");
    let zero = progress_event("[0 of 0] Compiling Z").unwrap();
    assert_eq!(zero.percentage, None);
    assert!(progress_event("Building...").is_none());
}

#[test]
fn structured_lines_pick_json_with_errors_or_warnings() {
    let text = "[1 of 2] Compiling Main\n  {\"errors\":[{\"filename\":\"src/A.purs\"}],\"warnings\":[]}  \nplain human text\n{\"warnings\":[{\"filename\":\"src/B.purs\"}]}\r\n{\"other\":1}\n{\"errors\": broken";
    let lines = structured_lines(text);
    assert_eq!(lines.len(), 3);
    assert_eq!(lines[0], "{\"errors\":[{\"filename\":\"src/A.purs\"}],\"warnings\":[]}");
    assert_eq!(lines[1], "{\"warnings\":[{\"filename\":\"src/B.purs\"}]}");
    assert_eq!(lines[2], "{\"errors\": broken");
    assert!(structured_lines("").is_empty());
    assert!(structured_lines("\n\n").is_empty());
}

#[test]
fn one_error_line_one_warning_line_one_text_line() {
    let text = "{\"errors\":[{\"filename\":\"src/A.purs\"}]}\n{\"warnings\":[{\"filename\":\"src/B.purs\"}]}\nCompiling things";
    let lines = structured_lines(text);
    assert_eq!(lines.len(), 2);
    let decoded = vec![
        CompilerOutput { errors: Some(vec![record("E", "src/A.purs", 1)]), warnings: None },
        CompilerOutput { errors: None, warnings: Some(vec![record("W", "src/B.purs", 2)]) },
    ];
    let result = build_result(false, text.to_string(), decoded);
    assert!(!result.success);
    assert_eq!(result.output, text);
    assert_eq!(result.errors.len(), 1);
    assert_eq!(result.errors[0].path, "src/A.purs");
    assert_eq!(result.warnings.len(), 1);
    assert_eq!(result.warnings[0].path, "src/B.purs");
}

#[test]
fn records_group_by_file_in_encounter_order() {
    let mut groups: Vec<FileDiagnostics> = Vec::new();
    add_records_to(
        &mut groups,
        vec![record("E1", "a.purs", 1), record("E2", "b.purs", 2), record("E3", "a.purs", 3)],
    );
    assert_eq!(groups.len(), 2);
    assert_eq!(groups[0].path, "a.purs");
    assert_eq!(groups[0].diagnostics.len(), 2);
    assert_eq!(groups[0].diagnostics[0].error_code, "E1");
    assert_eq!(groups[0].diagnostics[1].error_code, "E3");
    assert_eq!(groups[1].path, "b.purs");
    let mut warnings: Vec<FileDiagnostics> = Vec::new();
    add_compiler_output(
        &mut groups,
        &mut warnings,
        CompilerOutput { errors: Some(vec![record("E4", "b.purs", 4)]), warnings: Some(vec![record("W1", "a.purs", 5)]) },
    );
    assert_eq!(groups[1].diagnostics.len(), 2);
    assert_eq!(warnings.len(), 1);
    assert_eq!(warnings[0].path, "a.purs");
}

#[test]
fn dependency_warnings_are_hidden_and_errors_kept() {
    let errors = vec![
        FileDiagnostics { path: ".spago/p/src/X.purs".to_string(), diagnostics: vec![record("E", ".spago/p/src/X.purs", 1)] },
        FileDiagnostics { path: "src/A.purs".to_string(), diagnostics: vec![record("E", "src/A.purs", 2)] },
    ];
    let warnings = vec![
        FileDiagnostics { path: ".spago/p/src/Y.purs".to_string(), diagnostics: vec![record("W", ".spago/p/src/Y.purs", 3)] },
        FileDiagnostics { path: "src/A.purs".to_string(), diagnostics: vec![record("W", "src/A.purs", 4)] },
        FileDiagnostics { path: "src/C.purs".to_string(), diagnostics: vec![record("W", "src/C.purs", 5)] },
    ];
    let groups = visible_build_groups(errors, warnings);
    let paths: Vec<&str> = groups.iter().map(|g| g.path.as_str()).collect();
    assert_eq!(paths, vec![".spago/p/src/X.purs", "src/A.purs", "src/C.purs"]);
    assert_eq!(groups[1].diagnostics.len(), 2);
    assert_eq!(groups[1].diagnostics[0].error_code, "E");
    assert_eq!(groups[1].diagnostics[1].error_code, "W");
}

#[test]
fn build_arguments_per_mode() {
    assert_eq!(build_args(BuildMode::Full), vec!["build", "--", "--json-errors"]);
    assert_eq!(build_args(BuildMode::Quick), vec!["build", "-q", "--", "--json-errors"]);
}

#[test]
fn commands_by_name() {
    assert_eq!(command_for("purescript.build"), ServerCommand::Build(BuildMode::Full));
    assert_eq!(command_for("purescript.buildQuick"), ServerCommand::Build(BuildMode::Quick));
    assert_eq!(command_for("purescript.focusDocument"), ServerCommand::FocusDocument);
    assert_eq!(command_for("purescript.other"), ServerCommand::Unknown);
}

#[test]
fn captured_lines_join_with_newlines() {
    assert_eq!(join_lines(&vec![]), "");
    assert_eq!(join_lines(&vec!["a".to_string()]), "a");
    assert_eq!(join_lines(&vec!["a".to_string(), "".to_string(), "c".to_string()]), "a\n\nc");
}
