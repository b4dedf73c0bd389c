//! Quick fixes derived from the suggestions that compiler diagnostics carry:
//! one action per diagnostic, and one batch action that applies a largest
//! non-overlapping set of fixes from the bottom of the file upward.
use vstd::prelude::*;
use crate::model::{RebuildError, is_fixable};
use crate::span::{
    EditorRange,
    editor_range_of,
    lines_overlap,
    line_start,
    line_start_range,
    ranges_overlap,
    to_editor_range,
};
use crate::text::{
    contains,
    decimal,
    has_prefix,
    push_char,
    push_decimal,
    str_contains,
    str_eq,
    str_starts_with,
    trim,
    trim_end,
    trimmed,
    trimmed_end,
};
use vstd::string::StringExecFns;

verus! {

/// A replacement of the text in `range` by `new_text`.
#[derive(Debug, Clone)]
pub struct TextEdit {
    pub range: EditorRange,
    pub new_text: String,
}

/// What a text edit holds, as mathematical values.
pub struct TextEditView {
    pub range: EditorRange,
    pub new_text: Seq<char>,
}

impl View for TextEdit {
    type V = TextEditView;

    open spec fn view(&self) -> TextEditView {
        TextEditView { range: self.range, new_text: self.new_text@ }
    }
}

/// A quick fix: a titled set of edits to the document at `uri`.
#[derive(Debug, Clone)]
pub struct CodeAction {
    pub title: String,
    pub uri: String,
    pub edits: Vec<TextEdit>,
    pub is_preferred: bool,
}

/// What a code action holds, as mathematical values.
pub struct CodeActionView {
    pub title: Seq<char>,
    pub uri: Seq<char>,
    pub edits: Seq<TextEditView>,
    pub is_preferred: bool,
}

/// The views of a sequence of edits.
pub open spec fn edit_views(es: Seq<TextEdit>) -> Seq<TextEditView> {
    es.map_values(|e: TextEdit| e@)
}

impl View for CodeAction {
    type V = CodeActionView;

    open spec fn view(&self) -> CodeActionView {
        CodeActionView {
            title: self.title@,
            uri: self.uri@,
            edits: edit_views(self.edits@),
            is_preferred: self.is_preferred,
        }
    }
}

/// The views of a sequence of code actions.
pub open spec fn action_views(acts: Seq<CodeAction>) -> Seq<CodeActionView> {
    acts.map_values(|a: CodeAction| a@)
}

/// The title of the quick fix for a diagnostic code.
pub open spec fn action_title(code: Seq<char>) -> Seq<char> {
    if code == "UnusedImport"@ || code == "RedundantEmptyHidingImport"@ || code
        == "DuplicateImport"@ || code == "RedundantUnqualifiedImport"@ {
        "Remove import"@
    } else if code == "DeprecatedQualifiedSyntax"@ {
        "Remove qualified keyword"@
    } else if code == "ImplicitImport"@ {
        "Make import explicit"@
    } else if code == "UnusedExplicitImport"@ {
        "Remove unused references"@
    } else {
        "Apply suggestion"@
    }
}

/// A suggestion that adds a type signature for the entry point: it holds the
/// annotation separator and, trimmed, starts with the entry point's name.
pub open spec fn is_signature_insertion(text: Seq<char>) -> bool {
    contains(text, "::"@) && has_prefix(trim(text), "main"@)
}

/// The range that a diagnostic's fix replaces: the suggestion's own range if
/// it has one, else the diagnostic's span.
pub open spec fn fix_range(e: RebuildError) -> EditorRange {
    match e.suggestion {
        Some(s) => match s.replace_range {
            Some(p) => editor_range_of(p),
            None => editor_range_of(e.position),
        },
        None => editor_range_of(e.position),
    }
}

/// The replacement text of a diagnostic's suggestion.
pub open spec fn suggestion_text(e: RebuildError) -> Seq<char> {
    e.suggestion->0.replacement@
}

/// The edit of a single quick fix. A signature suggestion is inserted on a
/// line of its own above the diagnostic's first line; any other suggestion
/// replaces its range with its text, trailing whitespace removed.
pub open spec fn single_edit(e: RebuildError) -> TextEditView {
    let t = suggestion_text(e);
    if is_signature_insertion(t) {
        TextEditView {
            range: line_start_range(editor_range_of(e.position).start.line),
            new_text: trim(t).push('\n'),
        }
    } else {
        TextEditView { range: fix_range(e), new_text: trim_end(t) }
    }
}

/// The edit that a diagnostic contributes to a batch fix.
pub open spec fn batch_edit(e: RebuildError) -> TextEditView {
    TextEditView { range: fix_range(e), new_text: trim_end(suggestion_text(e)) }
}

/// The quick fix for a fixable diagnostic of the document at `uri`.
pub open spec fn action_of(e: RebuildError, uri: Seq<char>) -> CodeActionView {
    CodeActionView {
        title: action_title(e.error_code@),
        uri: uri,
        edits: seq![single_edit(e)],
        is_preferred: true,
    }
}

/// The quick fixes of the fixable diagnostics whose span shares a line with `range`.
pub open spec fn range_actions(
    errors: Seq<RebuildError>,
    range: EditorRange,
    uri: Seq<char>,
) -> Seq<CodeActionView>
    decreases errors.len(),
{
    if errors.len() == 0 {
        Seq::empty()
    } else {
        let prev = range_actions(errors.drop_last(), range, uri);
        let e = errors.last();
        if is_fixable(e) && lines_overlap(editor_range_of(e.position), range) {
            prev.push(action_of(e, uri))
        } else {
            prev
        }
    }
}

/// The fixable diagnostics, in order.
pub open spec fn fixables(errors: Seq<RebuildError>) -> Seq<RebuildError>
    decreases errors.len(),
{
    if errors.len() == 0 {
        Seq::empty()
    } else {
        let prev = fixables(errors.drop_last());
        if is_fixable(errors.last()) {
            prev.push(errors.last())
        } else {
            prev
        }
    }
}

/// `a` ends strictly before `b`: by end line, then by end column.
pub open spec fn ends_before(a: RebuildError, b: RebuildError) -> bool {
    a.position.end_line < b.position.end_line || (a.position.end_line == b.position.end_line
        && a.position.end_column < b.position.end_column)
}

/// Inserts `x` into `s`, which is ordered by descending end, after every element
/// that does not end before `x`.
pub open spec fn insert_desc(x: RebuildError, s: Seq<RebuildError>) -> Seq<RebuildError>
    decreases s.len(),
{
    if s.len() == 0 {
        seq![x]
    } else if ends_before(s[0], x) {
        seq![x] + s
    } else {
        seq![s[0]] + insert_desc(x, s.drop_first())
    }
}

/// `s` stably sorted by descending end position: elements that end at the same
/// place keep their order.
pub open spec fn sort_desc(s: Seq<RebuildError>) -> Seq<RebuildError>
    decreases s.len(),
{
    if s.len() == 0 {
        s
    } else {
        insert_desc(s.last(), sort_desc(s.drop_last()))
    }
}

/// `e` shares a line with some element of `kept`.
pub open spec fn overlaps_any(kept: Seq<RebuildError>, e: RebuildError) -> bool {
    exists|j: int|
        0 <= j < kept.len() && lines_overlap(
            editor_range_of(e.position),
            editor_range_of(#[trigger] kept[j].position),
        )
}

/// Walking `s` in order, keeps each element that shares no line with one kept before.
pub open spec fn greedy(s: Seq<RebuildError>) -> Seq<RebuildError>
    decreases s.len(),
{
    if s.len() == 0 {
        s
    } else {
        let kept = greedy(s.drop_last());
        if overlaps_any(kept, s.last()) {
            kept
        } else {
            kept.push(s.last())
        }
    }
}

/// The diagnostics whose fixes a batch fix applies.
pub open spec fn batch_selection(errors: Seq<RebuildError>) -> Seq<RebuildError> {
    greedy(sort_desc(fixables(errors)))
}

/// The title of a batch fix of `n` fixes.
pub open spec fn batch_title(n: nat) -> Seq<char> {
    "Apply all fixes ("@ + decimal(n) + " fixes)"@
}

/// The batch fix for the document at `uri`.
pub open spec fn batch_action(errors: Seq<RebuildError>, uri: Seq<char>) -> CodeActionView {
    let sel = batch_selection(errors);
    CodeActionView {
        title: batch_title(sel.len()),
        uri: uri,
        edits: sel.map_values(|e: RebuildError| batch_edit(e)),
        is_preferred: false,
    }
}

/// The diagnostics at the given indices.
pub open spec fn at_indices(errors: Seq<RebuildError>, idx: Seq<usize>) -> Seq<RebuildError> {
    idx.map_values(|k: usize| errors[k as int])
}

/// The title of the quick fix for a diagnostic code.
pub fn get_code_action_title(error_code: &str) -> (r: &'static str)
    ensures
        r@ == action_title(error_code@),
{
    if str_eq(error_code, "UnusedImport") || str_eq(error_code, "RedundantEmptyHidingImport")
        || str_eq(error_code, "DuplicateImport") || str_eq(
        error_code,
        "RedundantUnqualifiedImport",
    ) {
        "Remove import"
    } else if str_eq(error_code, "DeprecatedQualifiedSyntax") {
        "Remove qualified keyword"
    } else if str_eq(error_code, "ImplicitImport") {
        "Make import explicit"
    } else if str_eq(error_code, "UnusedExplicitImport") {
        "Remove unused references"
    } else {
        "Apply suggestion"
    }
}

/// Whether a suggestion adds a type signature for the entry point.
pub fn is_signature_suggestion(replacement: &str) -> (r: bool)
    ensures
        r == is_signature_insertion(replacement@),
{
    if !str_contains(replacement, "::") {
        return false;
    }
    let t = trimmed(replacement);
    str_starts_with(t.as_str(), "main")
}

fn fix_range_exec(error: &RebuildError) -> (r: EditorRange)
    ensures
        r == fix_range(*error),
{
    match &error.suggestion {
        Some(s) => match &s.replace_range {
            Some(p) => to_editor_range(p),
            None => to_editor_range(&error.position),
        },
        None => to_editor_range(&error.position),
    }
}

fn batch_edit_exec(error: &RebuildError) -> (r: TextEdit)
    requires
        is_fixable(*error),
    ensures
        r@ == batch_edit(*error),
{
    let s = error.suggestion.as_ref().unwrap();
    TextEdit { range: fix_range_exec(error), new_text: trimmed_end(s.replacement.as_str()) }
}

fn single_edit_exec(error: &RebuildError) -> (r: TextEdit)
    requires
        is_fixable(*error),
    ensures
        r@ == single_edit(*error),
{
    let s = error.suggestion.as_ref().unwrap();
    if is_signature_suggestion(s.replacement.as_str()) {
        let mut t = trimmed(s.replacement.as_str());
        push_char(&mut t, '\n');
        let start = to_editor_range(&error.position).start.line;
        TextEdit { range: line_start(start), new_text: t }
    } else {
        batch_edit_exec(error)
    }
}

/// The quick fix for a diagnostic of the document at `uri`, if it carries a suggestion.
pub fn error_to_code_action(error: &RebuildError, uri: &str) -> (r: Option<CodeAction>)
    ensures
        r is Some <==> is_fixable(*error),
        r is Some ==> r->0@ == action_of(*error, uri@),
{
    if error.suggestion.is_none() {
        return None;
    }
    let edit = single_edit_exec(error);
    let mut edits: Vec<TextEdit> = Vec::new();
    edits.push(edit);
    let title = String::from_str(get_code_action_title(error.error_code.as_str()));
    let act = CodeAction { title, uri: String::from_str(uri), edits, is_preferred: true };
    assert(act@.edits =~= seq![single_edit(*error)]);
    Some(act)
}

proof fn lemma_action_views_push(acts: Seq<CodeAction>, a: CodeAction)
    ensures
        action_views(acts.push(a)) == action_views(acts).push(a@),
{
    assert(action_views(acts.push(a)) =~= action_views(acts).push(a@));
}

/// The quick fixes of the document at `uri` whose diagnostic shares a line with `range`.
pub fn generate_code_actions(uri: &str, range: &EditorRange, errors: &[RebuildError]) -> (r: Vec<
    CodeAction,
>)
    ensures
        action_views(r@) == range_actions(errors@, *range, uri@),
{
    let mut out: Vec<CodeAction> = Vec::new();
    let mut i: usize = 0;
    while i < errors.len()
        invariant
            i <= errors@.len(),
            action_views(out@) == range_actions(errors@.take(i as int), *range, uri@),
        decreases errors@.len() - i,
    {
        let e = &errors[i];
        assert(errors@.take(i + 1).drop_last() =~= errors@.take(i as int));
        if has_fixable_suggestion(e) && ranges_overlap(&to_editor_range(&e.position), range) {
            let a = error_to_code_action(e, uri);
            let a = a.unwrap();
            proof {
                lemma_action_views_push(out@, a);
            }
            out.push(a);
        }
        i = i + 1;
    }
    assert(errors@.take(errors@.len() as int) =~= errors@);
    out
}

/// Whether a diagnostic carries a suggested fix. The suggestion is trusted as
/// given: nothing checks that applying it is safe.
pub fn has_fixable_suggestion(error: &RebuildError) -> (r: bool)
    ensures
        r == is_fixable(*error),
{
    error.suggestion.is_some()
}

proof fn lemma_edit_views_push(es: Seq<TextEdit>, e: TextEdit)
    ensures
        edit_views(es.push(e)) == edit_views(es).push(e@),
{
    assert(edit_views(es.push(e)) =~= edit_views(es).push(e@));
}

proof fn lemma_batch_edits_push(s: Seq<RebuildError>, e: RebuildError)
    ensures
        s.push(e).map_values(|x: RebuildError| batch_edit(x)) == s.map_values(
            |x: RebuildError| batch_edit(x),
        ).push(batch_edit(e)),
{
    assert(s.push(e).map_values(|x: RebuildError| batch_edit(x)) =~= s.map_values(
        |x: RebuildError| batch_edit(x),
    ).push(batch_edit(e)));
}

proof fn lemma_insert_len(x: RebuildError, s: Seq<RebuildError>)
    ensures
        insert_desc(x, s).len() == s.len() + 1,
    decreases s.len(),
{
    if s.len() > 0 && !ends_before(s[0], x) {
        lemma_insert_len(x, s.drop_first());
    }
}

proof fn lemma_sort_len(s: Seq<RebuildError>)
    ensures
        sort_desc(s).len() == s.len(),
    decreases s.len(),
{
    if s.len() > 0 {
        lemma_sort_len(s.drop_last());
        lemma_insert_len(s.last(), sort_desc(s.drop_last()));
    }
}

proof fn lemma_greedy_nonempty(s: Seq<RebuildError>)
    requires
        s.len() > 0,
    ensures
        greedy(s).len() > 0,
    decreases s.len(),
{
    if s.len() > 1 {
        lemma_greedy_nonempty(s.drop_last());
    }
}

proof fn lemma_insert_at(x: RebuildError, s: Seq<RebuildError>, p: int)
    requires
        0 <= p <= s.len(),
        forall|q: int| 0 <= q < p ==> !ends_before(#[trigger] s[q], x),
        p == s.len() || ends_before(s[p], x),
    ensures
        insert_desc(x, s) == s.insert(p, x),
    decreases p,
{
    if p == 0 {
        if s.len() == 0 {
            assert(s.insert(0, x) =~= seq![x]);
        } else {
            assert(s.insert(0, x) =~= seq![x] + s);
        }
    } else {
        let t = s.drop_first();
        assert forall|q: int| 0 <= q < p - 1 implies !ends_before(#[trigger] t[q], x) by {
            assert(t[q] == s[q + 1]);
        }
        lemma_insert_at(x, t, p - 1);
        assert(seq![s[0]] + t.insert(p - 1, x) =~= s.insert(p, x));
    }
}

/// Where the fixable diagnostic `errors[i]` goes in the order `order`.
fn insert_position(errors: &[RebuildError], order: &Vec<usize>, i: usize) -> (p: usize)
    requires
        i < errors@.len(),
        forall|q: int| 0 <= q < order@.len() ==> order@[q] < errors@.len(),
    ensures
        p <= order@.len(),
        forall|q: int|
            0 <= q < p ==> !ends_before(
                #[trigger] at_indices(errors@, order@)[q],
                errors@[i as int],
            ),
        p == order@.len() || ends_before(at_indices(errors@, order@)[p as int], errors@[i as int]),
{
    let end_line = errors[i].position.end_line;
    let end_column = errors[i].position.end_column;
    let mut p: usize = 0;
    while p < order.len()
        invariant
            p <= order@.len(),
            i < errors@.len(),
            end_line == errors@[i as int].position.end_line,
            end_column == errors@[i as int].position.end_column,
            forall|q: int| 0 <= q < order@.len() ==> order@[q] < errors@.len(),
            forall|q: int|
                0 <= q < p ==> !ends_before(
                    #[trigger] at_indices(errors@, order@)[q],
                    errors@[i as int],
                ),
        decreases order@.len() - p,
    {
        let pos = errors[order[p]].position;
        if pos.end_line < end_line || (pos.end_line == end_line && pos.end_column < end_column) {
            return p;
        }
        p = p + 1;
    }
    p
}

/// Whether the range of `errors[k]` shares a line with that of any diagnostic in `kept`.
fn overlaps_kept(errors: &[RebuildError], kept: &Vec<usize>, k: usize) -> (r: bool)
    requires
        k < errors@.len(),
        forall|q: int| 0 <= q < kept@.len() ==> kept@[q] < errors@.len(),
    ensures
        r == overlaps_any(at_indices(errors@, kept@), errors@[k as int]),
{
    let range = to_editor_range(&errors[k].position);
    let ghost ks = at_indices(errors@, kept@);
    let mut hit = false;
    let mut j: usize = 0;
    while j < kept.len()
        invariant
            j <= kept@.len(),
            k < errors@.len(),
            ks == at_indices(errors@, kept@),
            range == editor_range_of(errors@[k as int].position),
            forall|q: int| 0 <= q < kept@.len() ==> kept@[q] < errors@.len(),
            hit == exists|jj: int|
                0 <= jj < j && lines_overlap(range, editor_range_of(#[trigger] ks[jj].position)),
        decreases kept@.len() - j,
    {
        let other = to_editor_range(&errors[kept[j]].position);
        assert(ks[j as int] == errors@[kept@[j as int] as int]);
        if ranges_overlap(&range, &other) {
            hit = true;
        }
        j = j + 1;
    }
    hit
}

/// The batch fix for the document at `uri`: present exactly when at least two
/// diagnostics carry a fix. Fixes are taken by descending end position, and a
/// fix that shares a line with one already taken is left out.
pub fn create_apply_all_action(uri: &str, errors: &[RebuildError]) -> (r: Option<CodeAction>)
    ensures
        r is None <==> fixables(errors@).len() <= 1,
        r is Some ==> r->0@ == batch_action(errors@, uri@),
{
    let mut order: Vec<usize> = Vec::new();
    let mut i: usize = 0;
    while i < errors.len()
        invariant
            i <= errors@.len(),
            forall|q: int| 0 <= q < order@.len() ==> order@[q] < errors@.len(),
            forall|q: int| 0 <= q < order@.len() ==> is_fixable(errors@[#[trigger] order@[q] as int]),
            at_indices(errors@, order@) == sort_desc(fixables(errors@.take(i as int))),
        decreases errors@.len() - i,
    {
        assert(errors@.take(i + 1).drop_last() =~= errors@.take(i as int));
        if errors[i].suggestion.is_some() {
            let p = insert_position(errors, &order, i);
            proof {
                let m = at_indices(errors@, order@);
                lemma_insert_at(errors@[i as int], m, p as int);
                let f = fixables(errors@.take(i as int));
                assert(f.push(errors@[i as int]).drop_last() =~= f);
            }
            let ghost before = order@;
            order.insert(p, i);
            assert(at_indices(errors@, order@) =~= at_indices(errors@, before).insert(
                p as int,
                errors@[i as int],
            ));
        }
        i = i + 1;
    }
    assert(errors@.take(errors@.len() as int) =~= errors@);
    proof {
        lemma_sort_len(fixables(errors@));
    }
    if order.len() <= 1 {
        return None;
    }
    let ghost sorted = at_indices(errors@, order@);
    let mut kept: Vec<usize> = Vec::new();
    let mut k: usize = 0;
    while k < order.len()
        invariant
            k <= order@.len(),
            sorted == at_indices(errors@, order@),
            forall|q: int| 0 <= q < order@.len() ==> order@[q] < errors@.len(),
            forall|q: int| 0 <= q < order@.len() ==> is_fixable(errors@[#[trigger] order@[q] as int]),
            forall|q: int| 0 <= q < kept@.len() ==> kept@[q] < errors@.len(),
            forall|q: int| 0 <= q < kept@.len() ==> is_fixable(errors@[#[trigger] kept@[q] as int]),
            at_indices(errors@, kept@) == greedy(sorted.take(k as int)),
        decreases order@.len() - k,
    {
        assert(sorted.take(k + 1).drop_last() =~= sorted.take(k as int));
        let idx = order[k];
        if !overlaps_kept(errors, &kept, idx) {
            let ghost before = kept@;
            kept.push(idx);
            assert(at_indices(errors@, kept@) =~= at_indices(errors@, before).push(
                errors@[idx as int],
            ));
        }
        k = k + 1;
    }
    assert(sorted.take(order@.len() as int) =~= sorted);
    let ghost sel = at_indices(errors@, kept@);
    proof {
        lemma_greedy_nonempty(sorted);
    }
    let mut edits: Vec<TextEdit> = Vec::new();
    let mut m: usize = 0;
    while m < kept.len()
        invariant
            m <= kept@.len(),
            sel == at_indices(errors@, kept@),
            sel == batch_selection(errors@),
            forall|q: int| 0 <= q < kept@.len() ==> kept@[q] < errors@.len(),
            forall|q: int| 0 <= q < kept@.len() ==> is_fixable(errors@[#[trigger] kept@[q] as int]),
            edit_views(edits@) == sel.take(m as int).map_values(|e: RebuildError| batch_edit(e)),
        decreases kept@.len() - m,
    {
        let e = batch_edit_exec(&errors[kept[m]]);
        proof {
            assert(sel[m as int] == errors@[kept@[m as int] as int]);
            lemma_edit_views_push(edits@, e);
            assert(sel.take(m + 1) =~= sel.take(m as int).push(sel[m as int]));
            lemma_batch_edits_push(sel.take(m as int), sel[m as int]);
        }
        edits.push(e);
        m = m + 1;
    }
    assert(sel.take(kept@.len() as int) =~= sel);
    let mut title = String::from_str("Apply all fixes (");
    push_decimal(&mut title, kept.len() as u64);
    title.append(" fixes)");
    Some(CodeAction { title, uri: String::from_str(uri), edits, is_preferred: false })
}

/// No two diagnostics of `s` share a line.
pub open spec fn pairwise_disjoint(s: Seq<RebuildError>) -> bool {
    forall|i: int, j: int|
        0 <= i < j < s.len() ==> !lines_overlap(
            editor_range_of(#[trigger] s[i].position),
            editor_range_of(#[trigger] s[j].position),
        )
}

proof fn lemma_greedy_disjoint(s: Seq<RebuildError>)
    ensures
        pairwise_disjoint(greedy(s)),
    decreases s.len(),
{
    if s.len() > 0 {
        lemma_greedy_disjoint(s.drop_last());
        let kept = greedy(s.drop_last());
        if !overlaps_any(kept, s.last()) {
            let r = kept.push(s.last());
            assert forall|i: int, j: int| 0 <= i < j < r.len() implies !lines_overlap(
                editor_range_of(#[trigger] r[i].position),
                editor_range_of(#[trigger] r[j].position),
            ) by {
                if j == kept.len() {
                    assert(r[i] == kept[i]);
                    assert(!lines_overlap(
                        editor_range_of(s.last().position),
                        editor_range_of(kept[i].position),
                    ));
                } else {
                    assert(r[i] == kept[i] && r[j] == kept[j]);
                }
            }
        }
    }
}

/// The fixes that a batch fix applies share no line with one another.
pub proof fn lemma_batch_disjoint(errors: Seq<RebuildError>)
    ensures
        pairwise_disjoint(batch_selection(errors)),
{
    lemma_greedy_disjoint(sort_desc(fixables(errors)));
}

/// `e` is one of the elements of `s`.
pub open spec fn holds(s: Seq<RebuildError>, e: RebuildError) -> bool {
    exists|i: int| 0 <= i < s.len() && #[trigger] s[i] == e
}

proof fn lemma_greedy_maximal(s: Seq<RebuildError>)
    ensures
        forall|k: int|
            0 <= k < s.len() ==> holds(greedy(s), #[trigger] s[k]) || overlaps_any(
                greedy(s),
                s[k],
            ),
    decreases s.len(),
{
    if s.len() > 0 {
        let init = s.drop_last();
        lemma_greedy_maximal(init);
        let kept = greedy(init);
        let r = greedy(s);
        assert forall|k: int| 0 <= k < s.len() implies holds(r, #[trigger] s[k]) || overlaps_any(
            r,
            s[k],
        ) by {
            if k == s.len() - 1 {
                if !overlaps_any(kept, s.last()) {
                    assert(r[kept.len() as int] == s.last());
                }
            } else {
                assert(s[k] == init[k]);
                if holds(kept, init[k]) {
                    let i = choose|i: int| 0 <= i < kept.len() && #[trigger] kept[i] == init[k];
                    assert(r[i] == kept[i]);
                } else {
                    let j = choose|j: int|
                        0 <= j < kept.len() && lines_overlap(
                            editor_range_of(init[k].position),
                            editor_range_of(#[trigger] kept[j].position),
                        );
                    assert(r[j] == kept[j]);
                }
            }
        }
    }
}

proof fn lemma_fixables_members(errors: Seq<RebuildError>)
    ensures
        forall|k: int|
            0 <= k < errors.len() && is_fixable(#[trigger] errors[k]) ==> holds(
                fixables(errors),
                errors[k],
            ),
    decreases errors.len(),
{
    if errors.len() > 0 {
        let init = errors.drop_last();
        lemma_fixables_members(init);
        let f = fixables(errors);
        assert forall|k: int|
            0 <= k < errors.len() && is_fixable(#[trigger] errors[k]) implies holds(
            f,
            errors[k],
        ) by {
            if k == errors.len() - 1 {
                assert(f[fixables(init).len() as int] == errors[k]);
            } else {
                assert(errors[k] == init[k]);
                let i = choose|i: int|
                    0 <= i < fixables(init).len() && #[trigger] fixables(init)[i] == init[k];
                assert(f[i] == fixables(init)[i]);
            }
        }
    }
}

proof fn lemma_insert_members(x: RebuildError, s: Seq<RebuildError>)
    ensures
        holds(insert_desc(x, s), x),
        forall|k: int| 0 <= k < s.len() ==> holds(insert_desc(x, s), #[trigger] s[k]),
    decreases s.len(),
{
    let r = insert_desc(x, s);
    if s.len() == 0 {
        assert(r[0] == x);
    } else if ends_before(s[0], x) {
        assert(r[0] == x);
        assert forall|k: int| 0 <= k < s.len() implies holds(r, #[trigger] s[k]) by {
            assert(r[k + 1] == s[k]);
        }
    } else {
        let t = s.drop_first();
        lemma_insert_members(x, t);
        let rt = insert_desc(x, t);
        let i = choose|i: int| 0 <= i < rt.len() && #[trigger] rt[i] == x;
        assert(r[i + 1] == rt[i]);
        assert forall|k: int| 0 <= k < s.len() implies holds(r, #[trigger] s[k]) by {
            if k == 0 {
                assert(r[0] == s[0]);
            } else {
                assert(s[k] == t[k - 1]);
                let j = choose|j: int| 0 <= j < rt.len() && #[trigger] rt[j] == t[k - 1];
                assert(r[j + 1] == rt[j]);
            }
        }
    }
}

proof fn lemma_sort_members(s: Seq<RebuildError>)
    ensures
        forall|k: int| 0 <= k < s.len() ==> holds(sort_desc(s), #[trigger] s[k]),
    decreases s.len(),
{
    if s.len() > 0 {
        let init = s.drop_last();
        lemma_sort_members(init);
        lemma_insert_members(s.last(), sort_desc(init));
        let si = sort_desc(init);
        assert forall|k: int| 0 <= k < s.len() implies holds(sort_desc(s), #[trigger] s[k]) by {
            if k < s.len() - 1 {
                assert(s[k] == init[k]);
                let i = choose|i: int| 0 <= i < si.len() && #[trigger] si[i] == init[k];
                assert(holds(insert_desc(s.last(), si), si[i]));
            }
        }
    }
}

/// A batch fix is maximal: each diagnostic with a fix either has its fix in
/// the batch or shares a line with a diagnostic whose fix is.
pub proof fn lemma_batch_maximal(errors: Seq<RebuildError>)
    ensures
        forall|k: int|
            0 <= k < errors.len() && is_fixable(#[trigger] errors[k]) ==> holds(
                batch_selection(errors),
                errors[k],
            ) || overlaps_any(batch_selection(errors), errors[k]),
{
    let f = fixables(errors);
    let sorted = sort_desc(f);
    lemma_fixables_members(errors);
    lemma_sort_members(f);
    lemma_greedy_maximal(sorted);
    assert forall|k: int|
        0 <= k < errors.len() && is_fixable(#[trigger] errors[k]) implies holds(
        batch_selection(errors),
        errors[k],
    ) || overlaps_any(batch_selection(errors), errors[k]) by {
        let i = choose|i: int| 0 <= i < f.len() && #[trigger] f[i] == errors[k];
        let j = choose|j: int| 0 <= j < sorted.len() && #[trigger] sorted[j] == f[i];
        assert(holds(greedy(sorted), sorted[j]) || overlaps_any(greedy(sorted), sorted[j]));
    }
}

} // verus!
