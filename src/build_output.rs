//! Structured output of the build tool: single-line JSON objects with
//! `"errors"` or `"warnings"` embedded among human-readable lines, and the
//! grouping of the records they hold by file.
use vstd::prelude::*;
use crate::model::RebuildError;
use crate::text::{
    chars_of,
    contains,
    contains_exec,
    has_prefix,
    lines,
    lines_from,
    occurs_at_exec,
    string_of,
    trim,
    trim_bounds,
};

verus! {

/// A trimmed line that may hold structured output: it opens a JSON object and
/// mentions an `"errors"` or `"warnings"` key.
pub open spec fn is_structured_candidate(t: Seq<char>) -> bool {
    has_prefix(t, "{"@) && (contains(t, "\"errors\""@) || contains(t, "\"warnings\""@))
}

/// The trimmed lines among `ls` that may hold structured output, in order.
pub open spec fn candidates(ls: Seq<Seq<char>>) -> Seq<Seq<char>>
    decreases ls.len(),
{
    if ls.len() == 0 {
        Seq::empty()
    } else {
        let t = trim(ls[0]);
        let rest = candidates(ls.drop_first());
        if is_structured_candidate(t) {
            seq![t] + rest
        } else {
            rest
        }
    }
}

/// The views of a sequence of strings.
pub open spec fn string_views(v: Seq<String>) -> Seq<Seq<char>> {
    v.map_values(|s: String| s@)
}

/// The diagnostics of one file, in the order they were reported.
#[derive(Debug, Clone)]
pub struct FileDiagnostics {
    pub path: String,
    pub diagnostics: Vec<RebuildError>,
}

/// The views of a sequence of per-file groups: each file's path and records.
pub open spec fn groups_view(g: Seq<FileDiagnostics>) -> Seq<(Seq<char>, Seq<RebuildError>)> {
    g.map_values(|e: FileDiagnostics| (e.path@, e.diagnostics@))
}

/// The index of the first group for file `f` at or after `i`, or the length of `g`.
pub open spec fn key_index(g: Seq<(Seq<char>, Seq<RebuildError>)>, f: Seq<char>, i: int) -> int
    decreases g.len() - i,
{
    if i < 0 || i >= g.len() {
        g.len() as int
    } else if g[i].0 == f {
        i
    } else {
        key_index(g, f, i + 1)
    }
}

/// The groups `g` with record `e` added: to the group of its file if there is
/// one, else in a new group at the end.
pub open spec fn add_record(g: Seq<(Seq<char>, Seq<RebuildError>)>, e: RebuildError) -> Seq<
    (Seq<char>, Seq<RebuildError>),
> {
    let f = e.filename@;
    let j = key_index(g, f, 0);
    if j < g.len() {
        g.update(j, (f, g[j].1.push(e)))
    } else {
        g.push((f, seq![e]))
    }
}

/// The groups `g` with the records `rs` added in order.
pub open spec fn add_records(g: Seq<(Seq<char>, Seq<RebuildError>)>, rs: Seq<RebuildError>) -> Seq<
    (Seq<char>, Seq<RebuildError>),
>
    decreases rs.len(),
{
    if rs.len() == 0 {
        g
    } else {
        add_record(add_records(g, rs.drop_last()), rs.last())
    }
}

/// The records of file `f` in the groups `g`; none if `g` has no group for it.
pub open spec fn records_of(g: Seq<(Seq<char>, Seq<RebuildError>)>, f: Seq<char>) -> Seq<
    RebuildError,
> {
    let j = key_index(g, f, 0);
    if j < g.len() {
        g[j].1
    } else {
        Seq::empty()
    }
}

/// The trimmed piece `piece` if it may hold structured output, else nothing.
pub open spec fn keep_candidate(piece: Seq<char>) -> Seq<Seq<char>> {
    if is_structured_candidate(trim(piece)) {
        seq![trim(piece)]
    } else {
        Seq::empty()
    }
}

proof fn lemma_candidates_cons(piece: Seq<char>, rest: Seq<Seq<char>>)
    ensures
        candidates(seq![piece] + rest) == keep_candidate(piece) + candidates(rest),
{
    let l = seq![piece] + rest;
    assert(l.drop_first() =~= rest);
    assert(l[0] == piece);
    assert(keep_candidate(piece) + candidates(rest) =~= candidates(l));
}

fn is_candidate_exec(t: &Vec<char>) -> (r: bool)
    ensures
        r == is_structured_candidate(t@),
{
    let brace = chars_of("{");
    if !occurs_at_exec(t, &brace, 0) {
        return false;
    }
    let errors_key = chars_of("\"errors\"");
    let warnings_key = chars_of("\"warnings\"");
    contains_exec(t, &errors_key) || contains_exec(t, &warnings_key)
}

fn push_candidate(v: &Vec<char>, lo: usize, hi: usize, out: &mut Vec<String>)
    requires
        lo <= hi <= v@.len(),
    ensures
        string_views(final(out)@) == string_views(old(out)@) + keep_candidate(
            v@.subrange(lo as int, hi as int),
        ),
{
    let (a, b) = trim_bounds(v, lo, hi);
    let line = string_of(v, a, b);
    let t = chars_of(line.as_str());
    if is_candidate_exec(&t) {
        let ghost before = out@;
        out.push(line);
        assert(string_views(out@) =~= string_views(before) + keep_candidate(
            v@.subrange(lo as int, hi as int),
        ));
    } else {
        assert(string_views(out@) =~= string_views(out@) + keep_candidate(
            v@.subrange(lo as int, hi as int),
        ));
    }
}

/// The lines of `output` that may hold structured output, each trimmed, in order.
pub fn structured_lines(output: &str) -> (r: Vec<String>)
    ensures
        string_views(r@) == candidates(lines(output@)),
{
    let v = chars_of(output);
    let ghost s = v@;
    let mut out: Vec<String> = Vec::new();
    let mut start: usize = 0;
    let mut i: usize = 0;
    assert(string_views(out@) =~= Seq::<Seq<char>>::empty());
    assert(Seq::<Seq<char>>::empty() + candidates(lines(s)) =~= candidates(lines(s)));
    while i < v.len()
        invariant
            s == v@,
            s == output@,
            start <= i <= v@.len(),
            candidates(lines(s)) == string_views(out@) + candidates(
                lines_from(s, i as int, start as int),
            ),
        decreases v@.len() - i,
    {
        if v[i] == '\n' {
            let ghost before = out@;
            let ghost rest = lines_from(s, i + 1, i + 1);
            proof {
                lemma_candidates_cons(s.subrange(start as int, i as int), rest);
            }
            push_candidate(&v, start, i, &mut out);
            assert(string_views(before) + (keep_candidate(s.subrange(start as int, i as int))
                + candidates(rest)) =~= string_views(out@) + candidates(rest));
            start = i + 1;
        }
        i = i + 1;
    }
    if start < v.len() {
        let ghost before = out@;
        proof {
            lemma_candidates_cons(s.subrange(start as int, s.len() as int), Seq::empty());
            assert(lines_from(s, i as int, start as int) =~= seq![
                s.subrange(start as int, s.len() as int),
            ] + Seq::<Seq<char>>::empty());
        }
        push_candidate(&v, start, v.len(), &mut out);
        assert(string_views(before) + (keep_candidate(s.subrange(start as int, s.len() as int))
            + candidates(Seq::<Seq<char>>::empty())) =~= string_views(out@));
    } else {
        assert(string_views(out@) + candidates(lines_from(s, i as int, start as int))
            =~= string_views(out@));
    }
    out
}

/// One structured line of build output, decoded.
#[derive(Debug, Clone)]
pub struct CompilerOutput {
    pub errors: Option<Vec<RebuildError>>,
    pub warnings: Option<Vec<RebuildError>>,
}

/// The records of an optional list; none if it is absent.
pub open spec fn records_in(l: Option<Vec<RebuildError>>) -> Seq<RebuildError> {
    match l {
        Some(v) => v@,
        None => Seq::empty(),
    }
}

proof fn lemma_key_index(g: Seq<(Seq<char>, Seq<RebuildError>)>, f: Seq<char>, i: int)
    requires
        0 <= i,
    ensures
        key_index(g, f, i) <= g.len(),
        key_index(g, f, i) < g.len() ==> g[key_index(g, f, i)].0 == f,
        key_index(g, f, i) < g.len() ==> i <= key_index(g, f, i),
        forall|q: int| i <= q < key_index(g, f, i) ==> #[trigger] g[q].0 != f,
    decreases g.len() - i,
{
    if i < g.len() && g[i].0 != f {
        lemma_key_index(g, f, i + 1);
    }
}

fn find_group(groups: &Vec<FileDiagnostics>, f: &str) -> (r: usize)
    ensures
        r == key_index(groups_view(groups@), f@, 0),
        r <= groups@.len(),
{
    let ghost g = groups_view(groups@);
    let mut j: usize = 0;
    while j < groups.len()
        invariant
            g == groups_view(groups@),
            j <= groups@.len(),
            key_index(g, f@, 0) == key_index(g, f@, j as int),
        decreases groups@.len() - j,
    {
        if crate::text::str_eq(groups[j].path.as_str(), f) {
            return j;
        }
        j = j + 1;
    }
    j
}

/// Adds one record to the group of its file, opening a group at the end if
/// the file has none yet.
pub fn add_record_to(groups: &mut Vec<FileDiagnostics>, e: RebuildError)
    ensures
        groups_view(final(groups)@) == add_record(groups_view(old(groups)@), e),
{
    let ghost g = groups_view(groups@);
    let j = find_group(groups, e.filename.as_str());
    if j < groups.len() {
        proof {
            lemma_key_index(g, e.filename@, 0);
        }
        let mut entry = groups.remove(j);
        assert(entry.path@ == g[j as int].0);
        entry.diagnostics.push(e);
        groups.insert(j, entry);
        assert(groups_view(groups@) =~= add_record(g, e));
    } else {
        let path = e.filename.clone();
        let mut diagnostics: Vec<RebuildError> = Vec::new();
        diagnostics.push(e);
        assert(diagnostics@ =~= seq![e]);
        groups.push(FileDiagnostics { path, diagnostics });
        assert(groups_view(groups@) =~= add_record(g, e));
    }
}

/// Adds records in order, each to the group of its file.
pub fn add_records_to(groups: &mut Vec<FileDiagnostics>, records: Vec<RebuildError>)
    ensures
        groups_view(final(groups)@) == add_records(groups_view(old(groups)@), records@),
{
    let ghost g0 = groups_view(groups@);
    let ghost all = records@;
    let mut records = records;
    let ghost mut k: int = 0;
    assert(all.take(0) =~= Seq::<RebuildError>::empty());
    while records.len() > 0
        invariant
            0 <= k <= all.len(),
            records@ == all.subrange(k, all.len() as int),
            groups_view(groups@) == add_records(g0, all.take(k)),
        decreases records@.len(),
    {
        let e = records.remove(0);
        proof {
            assert(e == all[k]);
            assert(all.take(k + 1).drop_last() =~= all.take(k));
            assert(all.take(k + 1).last() == all[k]);
        }
        add_record_to(groups, e);
        proof {
            k = k + 1;
            assert(records@ =~= all.subrange(k, all.len() as int));
        }
    }
    assert(all.take(all.len() as int) =~= all);
}

/// Adds the errors and warnings of one decoded line to the per-file groups of each.
pub fn add_compiler_output(
    errors: &mut Vec<FileDiagnostics>,
    warnings: &mut Vec<FileDiagnostics>,
    output: CompilerOutput,
)
    ensures
        groups_view(final(errors)@) == add_records(
            groups_view(old(errors)@),
            records_in(output.errors),
        ),
        groups_view(final(warnings)@) == add_records(
            groups_view(old(warnings)@),
            records_in(output.warnings),
        ),
{
    match output.errors {
        Some(es) => add_records_to(errors, es),
        None => {},
    }
    match output.warnings {
        Some(ws) => add_records_to(warnings, ws),
        None => {},
    }
}

/// A path under the dependency-package directory, whose warnings are not shown.
pub open spec fn is_dependency_path(p: Seq<char>) -> bool {
    contains(p, ".spago"@)
}

/// The groups `acc` with the records of each group of `gs` added in order.
pub open spec fn add_groups(
    acc: Seq<(Seq<char>, Seq<RebuildError>)>,
    gs: Seq<(Seq<char>, Seq<RebuildError>)>,
) -> Seq<(Seq<char>, Seq<RebuildError>)>
    decreases gs.len(),
{
    if gs.len() == 0 {
        acc
    } else {
        add_records(add_groups(acc, gs.drop_last()), gs.last().1)
    }
}

/// The groups of `gs` whose path is not under the dependency-package directory.
pub open spec fn workspace_groups(gs: Seq<(Seq<char>, Seq<RebuildError>)>) -> Seq<
    (Seq<char>, Seq<RebuildError>),
>
    decreases gs.len(),
{
    if gs.len() == 0 {
        gs
    } else if is_dependency_path(gs.last().0) {
        workspace_groups(gs.drop_last())
    } else {
        workspace_groups(gs.drop_last()).push(gs.last())
    }
}

/// What a build shows, per file: its errors, then the warnings of workspace files.
pub open spec fn visible_groups(
    errors: Seq<(Seq<char>, Seq<RebuildError>)>,
    warnings: Seq<(Seq<char>, Seq<RebuildError>)>,
) -> Seq<(Seq<char>, Seq<RebuildError>)> {
    add_groups(add_groups(Seq::empty(), errors), workspace_groups(warnings))
}

/// Whether a path lies under the dependency-package directory.
pub fn is_dependency_file(path: &str) -> (r: bool)
    ensures
        r == is_dependency_path(path@),
{
    crate::text::str_contains(path, ".spago")
}

/// Merges a build's errors and warnings into one group per file: all errors
/// first, then warnings, leaving out warnings of dependency files.
pub fn visible_build_groups(errors: Vec<FileDiagnostics>, warnings: Vec<FileDiagnostics>) -> (r:
    Vec<FileDiagnostics>)
    ensures
        groups_view(r@) == visible_groups(groups_view(errors@), groups_view(warnings@)),
{
    let ghost ev = groups_view(errors@);
    let ghost wv = groups_view(warnings@);
    let mut out: Vec<FileDiagnostics> = Vec::new();
    let mut errors = errors;
    let ghost mut k: int = 0;
    assert(groups_view(out@) =~= add_groups(Seq::empty(), ev.take(0)));
    while errors.len() > 0
        invariant
            0 <= k <= ev.len(),
            groups_view(errors@) == ev.subrange(k, ev.len() as int),
            groups_view(out@) == add_groups(Seq::empty(), ev.take(k)),
        decreases errors@.len(),
    {
        let ghost pre = errors@;
        assert(groups_view(pre).len() == pre.len());
        assert(groups_view(pre)[0] == ev[k]);
        let g = errors.remove(0);
        proof {
            assert(g == pre[0]);
            assert(errors@ =~= pre.subrange(1, pre.len() as int));
            assert(groups_view(errors@) =~= groups_view(pre).subrange(1, pre.len() as int));
            assert(groups_view(errors@) =~= ev.subrange(k + 1, ev.len() as int));
            assert(ev[k] == (g.path@, g.diagnostics@));
            assert(ev.take(k + 1).drop_last() =~= ev.take(k));
        }
        add_records_to(&mut out, g.diagnostics);
        proof {
            k = k + 1;
        }
    }
    assert(ev.take(ev.len() as int) =~= ev);
    let ghost base = groups_view(out@);
    let mut warnings = warnings;
    let ghost mut m: int = 0;
    assert(wv.take(0) =~= Seq::<(Seq<char>, Seq<RebuildError>)>::empty());
    while warnings.len() > 0
        invariant
            0 <= m <= wv.len(),
            groups_view(warnings@) == wv.subrange(m, wv.len() as int),
            groups_view(out@) == add_groups(base, workspace_groups(wv.take(m))),
        decreases warnings@.len(),
    {
        let ghost pre = warnings@;
        assert(groups_view(pre).len() == pre.len());
        assert(groups_view(pre)[0] == wv[m]);
        let g = warnings.remove(0);
        proof {
            assert(g == pre[0]);
            assert(warnings@ =~= pre.subrange(1, pre.len() as int));
            assert(groups_view(warnings@) =~= groups_view(pre).subrange(1, pre.len() as int));
            assert(groups_view(warnings@) =~= wv.subrange(m + 1, wv.len() as int));
            assert(wv[m] == (g.path@, g.diagnostics@));
            assert(wv.take(m + 1).drop_last() =~= wv.take(m));
        }
        if !is_dependency_file(g.path.as_str()) {
            proof {
                let ws = workspace_groups(wv.take(m)).push(wv[m]);
                assert(ws.drop_last() =~= workspace_groups(wv.take(m)));
            }
            add_records_to(&mut out, g.diagnostics);
        }
        proof {
            m = m + 1;
        }
    }
    assert(wv.take(wv.len() as int) =~= wv);
    out
}

} // verus!
