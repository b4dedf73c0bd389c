//! Build invocations: the arguments of each build mode, the commands that
//! start a build, and the build result assembled from the captured output.
use vstd::prelude::*;
use crate::build_output::{
    CompilerOutput,
    FileDiagnostics,
    add_compiler_output,
    add_records,
    groups_view,
    records_in,
};
use crate::text::str_eq;
use vstd::string::StringExecFns;

verus! {

/// A whole-project build, or a quick one with less output.
#[derive(Debug, Clone, Copy, PartialEq, Eq, Structural)]
pub enum BuildMode {
    Full,
    Quick,
}

/// A command that the editor may ask the server to run.
#[derive(Debug, Clone, Copy, PartialEq, Eq, Structural)]
pub enum ServerCommand {
    Build(BuildMode),
    FocusDocument,
    Unknown,
}

/// The result of one build: its exit status, its captured standard output,
/// and its errors and warnings grouped by file.
#[derive(Debug, Clone)]
pub struct BuildResult {
    pub success: bool,
    pub output: String,
    pub errors: Vec<FileDiagnostics>,
    pub warnings: Vec<FileDiagnostics>,
}

/// The views of a sequence of strings.
pub open spec fn arg_views(v: Seq<String>) -> Seq<Seq<char>> {
    v.map_values(|s: String| s@)
}

/// The arguments of the build tool for a build mode; both ask for errors as JSON.
pub open spec fn build_args_of(mode: BuildMode) -> Seq<Seq<char>> {
    match mode {
        BuildMode::Full => seq!["build"@, "--"@, "--json-errors"@],
        BuildMode::Quick => seq!["build"@, "-q"@, "--"@, "--json-errors"@],
    }
}

/// The command that a command name denotes.
pub open spec fn command_of(name: Seq<char>) -> ServerCommand {
    if name == "purescript.build"@ {
        ServerCommand::Build(BuildMode::Full)
    } else if name == "purescript.buildQuick"@ {
        ServerCommand::Build(BuildMode::Quick)
    } else if name == "purescript.focusDocument"@ {
        ServerCommand::FocusDocument
    } else {
        ServerCommand::Unknown
    }
}

/// The lines joined by newlines.
pub open spec fn joined(ls: Seq<Seq<char>>) -> Seq<char>
    decreases ls.len(),
{
    if ls.len() == 0 {
        Seq::empty()
    } else if ls.len() == 1 {
        ls[0]
    } else {
        joined(ls.drop_last()) + seq!['\n'] + ls.last()
    }
}

/// The errors and warnings of the decoded structured lines, grouped by file
/// in the order they were met.
pub open spec fn collected(ds: Seq<CompilerOutput>) -> (
    Seq<(Seq<char>, Seq<crate::model::RebuildError>)>,
    Seq<(Seq<char>, Seq<crate::model::RebuildError>)>,
)
    decreases ds.len(),
{
    if ds.len() == 0 {
        (Seq::empty(), Seq::empty())
    } else {
        let prev = collected(ds.drop_last());
        (
            add_records(prev.0, records_in(ds.last().errors)),
            add_records(prev.1, records_in(ds.last().warnings)),
        )
    }
}

/// The arguments of the build tool for `mode`.
pub fn build_args(mode: BuildMode) -> (r: Vec<String>)
    ensures
        arg_views(r@) == build_args_of(mode),
{
    let mut v: Vec<String> = Vec::new();
    v.push(String::from_str("build"));
    match mode {
        BuildMode::Quick => v.push(String::from_str("-q")),
        BuildMode::Full => {},
    }
    v.push(String::from_str("--"));
    v.push(String::from_str("--json-errors"));
    assert(arg_views(v@) =~= build_args_of(mode));
    v
}

/// The command named `name`.
pub fn command_for(name: &str) -> (r: ServerCommand)
    ensures
        r == command_of(name@),
{
    if str_eq(name, "purescript.build") {
        ServerCommand::Build(BuildMode::Full)
    } else if str_eq(name, "purescript.buildQuick") {
        ServerCommand::Build(BuildMode::Quick)
    } else if str_eq(name, "purescript.focusDocument") {
        ServerCommand::FocusDocument
    } else {
        ServerCommand::Unknown
    }
}

/// The captured lines of a stream, joined by newlines.
pub fn join_lines(lines: &Vec<String>) -> (r: String)
    ensures
        r@ == joined(arg_views(lines@)),
{
    let ghost ls = arg_views(lines@);
    let mut s = String::new();
    let mut i: usize = 0;
    while i < lines.len()
        invariant
            i <= lines@.len(),
            ls == arg_views(lines@),
            s@ == joined(ls.take(i as int)),
        decreases lines@.len() - i,
    {
        if i > 0 {
            s.append("\n");
        }
        s.append(lines[i].as_str());
        proof {
            reveal_strlit("\n");
            let t = ls.take(i + 1);
            assert(t.drop_last() =~= ls.take(i as int));
            assert(t.last() == lines@[i as int]@);
            assert(s@ =~= joined(t));
        }
        i = i + 1;
    }
    assert(ls.take(lines@.len() as int) =~= ls);
    s
}

/// The result of a build with exit status `success` and standard output
/// `output`, whose structured lines decoded to `decoded`.
pub fn build_result(success: bool, output: String, decoded: Vec<CompilerOutput>) -> (r:
    BuildResult)
    ensures
        r.success == success,
        r.output@ == output@,
        groups_view(r.errors@) == collected(decoded@).0,
        groups_view(r.warnings@) == collected(decoded@).1,
{
    let ghost all = decoded@;
    let mut errors: Vec<FileDiagnostics> = Vec::new();
    let mut warnings: Vec<FileDiagnostics> = Vec::new();
    let mut decoded = decoded;
    let ghost mut k: int = 0;
    assert(groups_view(errors@) =~= collected(all.take(0)).0);
    assert(groups_view(warnings@) =~= collected(all.take(0)).1);
    while decoded.len() > 0
        invariant
            0 <= k <= all.len(),
            decoded@ == all.subrange(k, all.len() as int),
            groups_view(errors@) == collected(all.take(k)).0,
            groups_view(warnings@) == collected(all.take(k)).1,
        decreases decoded@.len(),
    {
        let d = decoded.remove(0);
        proof {
            assert(d == all[k]);
            assert(all.take(k + 1).drop_last() =~= all.take(k));
        }
        add_compiler_output(&mut errors, &mut warnings, d);
        proof {
            k = k + 1;
            assert(decoded@ =~= all.subrange(k, all.len() as int));
        }
    }
    assert(all.take(all.len() as int) =~= all);
    BuildResult { success, output, errors, warnings }
}

} // verus!
