//! Coordination core of a PureScript language server: source spans, severity
//! classification, diagnostic conversion, fix planning, progress-line and
//! structured-output parsing, and the diagnostic state reconciler.
pub mod span;
pub mod text;
pub mod model;
pub mod diagnostics;
pub mod code_actions;
pub mod progress;
pub mod build_output;
pub mod documents;
pub mod config;
pub mod state;
pub mod protocol;
pub mod build_runner;
