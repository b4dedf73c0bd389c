use std::collections::HashMap;

use purescript_language_server::build_output::FileDiagnostics;
use purescript_language_server::config::{
    client_config_changed, client_config_of, init_config, init_from_ragu,
    init_with_client_config, parse_output_dir, parse_sources, ClientConfig, Formatter,
};
use purescript_language_server::diagnostics::EditorDiagnostic;
use purescript_language_server::model::{ErrorSuggestion, RebuildError};
use purescript_language_server::protocol::rebuild_request;
use purescript_language_server::span::{EditorPosition, EditorRange, ErrorPosition};
use purescript_language_server::state::{Publication, SaveAction, ServerState};

fn record(code: &str, line: u32, fix: Option<&str>) -> RebuildError {
    RebuildError {
        all_spans: None,
        error_code: code.to_string(),
        error_link: None,
        filename: "src/Main.purs".to_string(),
        message: "m".to_string(),
        module_name: None,
        position: ErrorPosition { start_line: line, end_line: line, start_column: 1, end_column: 4 },
        suggestion: fix.map(|t| ErrorSuggestion { replacement: t.to_string(), replace_range: None }),
    }
}

fn whole(line: u32) -> EditorRange {
    EditorRange {
        start: EditorPosition { line, character: 0 },
        end: EditorPosition { line, character: 0 },
    }
}

fn ready_state() -> ServerState {
    let mut s = ServerState::default();
    s.config = Some(init_from_ragu("output".to_string(), vec!["src/**/*.purs".to_string()]));
    s.ide_port = Some(4242);
    s
}

fn apply(shown: &mut HashMap<String, Vec<EditorDiagnostic>>, pubs: Vec<Publication>) {
    for p in pubs {
        shown.insert(p.uri, p.diagnostics);
    }
}

#[test]
fn uninitialized_state_has_everything_off() {
    let s = ServerState::default();
    assert!(!s.is_initialized());
    assert!(!s.fast_rebuild_on_save());
    assert!(!s.fast_rebuild_on_change());
    assert_eq!(s.formatter(), None);
}

#[test]
fn open_requests_live_rebuild_unless_foreign() {
    let mut s = ready_state();
    let req = s
        .did_open("file:///w/src/Main.purs".to_string(), "module Main where".to_string(), Some("/w/src/Main.purs".to_string()))
        .unwrap();
    assert_eq!(req.port, 4242);
    assert_eq!(req.file_path, "/w/src/Main.purs");
    assert_eq!(req.content.as_deref(), Some("module Main where"));
    let foreign = s.did_change(
        "file:///w/src/Main.purs".to_string(),
        "module Main where\nforeign import x :: Int".to_string(),
        Some("/w/src/Main.purs".to_string()),
    );
    assert!(foreign.is_none());
    assert!(s.did_open("file:///w/src/B.purs".to_string(), "x".to_string(), None).is_none());
    let focus = s.handle_document_focus("file:///w/src/B.purs", Some("/w/src/B.purs".to_string())).unwrap();
    assert_eq!(focus.content.as_deref(), Some("x"));
    assert!(s.handle_document_focus("file:///w/src/None.purs", Some("/p".to_string())).is_none());
}

#[test]
fn save_rebuilds_from_disk() {
    let mut s = ready_state();
    match s.did_save(Some("/w/src/Main.purs".to_string())) {
        SaveAction::Rebuild(r) => {
            assert_eq!(r.port, 4242);
            assert!(r.content.is_none());
        }
        other => panic!("unexpected {:?}", other),
    }
    assert!(matches!(s.did_save(None), SaveAction::NoPath));
    s.ide_port = None;
    assert!(matches!(s.did_save(Some("/p".to_string())), SaveAction::NoPort));
    let mut off = ready_state();
    if let Some(c) = off.config.as_mut() {
        c.merge_with_client_config(ClientConfig { formatter: None, fast_rebuild_on_save: Some(false), fast_rebuild_on_change: None });
    }
    assert!(matches!(off.did_save(Some("/p".to_string())), SaveAction::Skip));
}

#[test]
fn rebuild_replaces_wholesale_and_empty_clears() {
    let mut s = ready_state();
    let uri = "file:///w/src/Main.purs".to_string();
    s.did_open(uri.clone(), "text".to_string(), None);
    let p = s.finish_rebuild(uri.clone(), "t", vec![record("UnusedImport", 3, Some("")), record("TypesDoNotUnify", 5, None)]);
    assert_eq!(p.uri, uri);
    assert_eq!(p.diagnostics.len(), 2);
    let p2 = s.finish_rebuild(uri.clone(), "t", vec![record("ShadowedName", 8, None)]);
    assert_eq!(p2.diagnostics.len(), 1);
    assert_eq!(s.documents.get(&uri).unwrap().diagnostics.len(), 1);
    assert_eq!(s.documents.get(&uri).unwrap().live_text.as_deref(), Some("text"));
    let p3 = s.finish_rebuild(uri.clone(), "t", vec![]);
    assert!(p3.diagnostics.is_empty());
    assert!(s.documents.get(&uri).unwrap().diagnostics.is_empty());
}

#[test]
fn closing_retracts_diagnostics() {
    let mut s = ready_state();
    let uri = "file:///w/src/Main.purs".to_string();
    s.did_open(uri.clone(), "text".to_string(), None);
    s.finish_rebuild(uri.clone(), "t", vec![record("UnusedImport", 3, Some(""))]);
    let p = s.did_close(uri.clone());
    assert_eq!(p.uri, uri);
    assert!(p.diagnostics.is_empty());
    assert!(s.documents.get(&uri).is_none());
    assert!(s.code_actions(&uri, &whole(2)).is_empty());
}

#[test]
fn only_one_progress_token_is_active() {
    let mut s = ready_state();
    let t0 = s.next_rebuild_token();
    let t1 = s.next_rebuild_token();
    assert_eq!(t0, "rebuild-0");
    assert_eq!(t1, "rebuild-1");
    assert_eq!(s.begin_rebuild(t0.clone()), None);
    assert_eq!(s.begin_rebuild(t1.clone()), Some(t0.clone()));
    s.abandon_rebuild(&t0);
    assert_eq!(s.active_rebuild_token.as_deref(), Some("rebuild-1"));
    s.finish_rebuild("u".to_string(), &t1, vec![]);
    assert_eq!(s.active_rebuild_token, None);
}

#[test]
fn publishing_a_build_twice_shows_the_same() {
    let files = || {
        vec![
            FileDiagnostics { path: "file:///w/A.purs".to_string(), diagnostics: vec![record("TypesDoNotUnify", 1, None)] },
            FileDiagnostics { path: "file:///w/B.purs".to_string(), diagnostics: vec![record("UnusedImport", 2, None), record("ShadowedName", 3, None)] },
        ]
    };
    let mut s = ready_state();
    let mut shown: HashMap<String, Vec<EditorDiagnostic>> = HashMap::new();
    apply(&mut shown, s.apply_build(vec![FileDiagnostics { path: "file:///w/Old.purs".to_string(), diagnostics: vec![record("X", 1, None)] }]));
    let first = s.apply_build(files());
    assert_eq!(first.len(), 3);
    assert_eq!(first[0].uri, "file:///w/Old.purs");
    assert!(first[0].diagnostics.is_empty());
    apply(&mut shown, first);
    let once: Vec<(String, usize)> = {
        let mut v: Vec<(String, usize)> = shown.iter().map(|(k, d)| (k.clone(), d.len())).collect();
        v.sort();
        v
    };
    let second = s.apply_build(files());
    assert_eq!(second.len(), 4);
    apply(&mut shown, second);
    let mut twice: Vec<(String, usize)> = shown.iter().map(|(k, d)| (k.clone(), d.len())).collect();
    twice.sort();
    assert_eq!(once, twice);
    assert_eq!(
        once,
        vec![("file:///w/A.purs".to_string(), 1), ("file:///w/B.purs".to_string(), 2), ("file:///w/Old.purs".to_string(), 0)]
    );
}

#[test]
fn code_actions_add_batch_only_for_two_fixes() {
    let mut s = ready_state();
    let uri = "file:///w/src/Main.purs".to_string();
    s.finish_rebuild(uri.clone(), "t", vec![record("UnusedImport", 3, Some("")), record("TypesDoNotUnify", 5, None)]);
    let one = s.code_actions(&uri, &whole(2));
    assert_eq!(one.len(), 1);
    s.finish_rebuild(uri.clone(), "t", vec![record("UnusedImport", 3, Some("")), record("ImplicitImport", 9, Some("import A (a)"))]);
    let two = s.code_actions(&uri, &whole(2));
    assert_eq!(two.len(), 2);
    assert_eq!(two[1].title, "Apply all fixes (2 fixes)");
    assert!(s.code_actions("file:///other", &whole(2)).is_empty());
}

#[test]
fn client_settings_override_defaults() {
    let base = init_from_ragu("output".to_string(), vec!["src/**/*.purs".to_string()]);
    assert_eq!(base.formatter, Formatter::PursFmt);
    assert!(base.fast_rebuild_on_save && base.fast_rebuild_on_change);
    let c = init_with_client_config(
        "out".to_string(),
        vec![],
        Some(ClientConfig { formatter: Some(Formatter::PursTidy), fast_rebuild_on_save: None, fast_rebuild_on_change: Some(false) }),
    );
    assert_eq!(c.output_dir, "out");
    assert_eq!(c.formatter, Formatter::PursTidy);
    assert!(c.fast_rebuild_on_save);
    assert!(!c.fast_rebuild_on_change);
    let plain = init_with_client_config("o".to_string(), vec![], None);
    assert_eq!(plain.formatter, Formatter::PursFmt);
    let ragu_only = init_config("o".to_string(), vec![]);
    assert_eq!(ragu_only.formatter, Formatter::default());
    assert!(!ragu_only.fast_rebuild_on_change);
    assert_eq!(ClientConfig::default(), ClientConfig { formatter: None, fast_rebuild_on_save: None, fast_rebuild_on_change: None });
}

#[test]
fn configuration_change_is_detected() {
    let c = init_from_ragu("o".to_string(), vec![]);
    let current = Some(client_config_of(&c));
    assert!(!client_config_changed(current, current));
    let other = Some(ClientConfig { formatter: Some(Formatter::PursTidy), fast_rebuild_on_save: Some(true), fast_rebuild_on_change: Some(true) });
    assert!(client_config_changed(other, current));
    assert!(client_config_changed(None, current));
}

#[test]
fn package_tool_answers_are_parsed() {
    assert_eq!(parse_output_dir("  output\n"), "output");
    assert_eq!(parse_sources("src/**/*.purs\n\n  test/**/*.purs  \n.spago/*/src/**/*.purs"), vec!["src/**/*.purs", "test/**/*.purs", ".spago/*/src/**/*.purs"]);
    assert!(parse_sources("\n \n").is_empty());
}

#[test]
fn rebuild_request_quotes_its_strings() {
    assert_eq!(
        rebuild_request("/w/src/Main.purs", None),
        "{\"command\":\"rebuild\",\"params\":{\"file\":\"/w/src/Main.purs\"}}\n"
    );
    assert_eq!(
        rebuild_request("a\"b.purs", Some("x\ny")),
        "{\"command\":\"rebuild\",\"params\":{\"file\":\"a\\\"b.purs\",\"content\":\"x\\ny\"}}\n"
    );
}
