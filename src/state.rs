//! The session state and the diagnostic reconciler: every editor event or
//! tool result goes in, and the new state and the diagnostics to publish come
//! out.
use vstd::prelude::*;
use crate::build_output::{FileDiagnostics, groups_view};
use crate::code_actions::{
    CodeAction,
    CodeActionView,
    action_views,
    batch_action,
    create_apply_all_action,
    fixables,
    generate_code_actions,
    range_actions,
};
use crate::config::{Config, Formatter};
use crate::diagnostics::{
    EditorDiagnostic,
    EditorDiagnosticView,
    convert_rebuild_errors,
    diagnostic_views,
    diagnostics_of,
};
use crate::documents::{DocumentState, DocumentView, Documents, opt_view};
use crate::model::{RebuildError, is_fixable};
use crate::span::{EditorRange, editor_range_of, lines_overlap};
use crate::text::{contains, decimal, push_decimal, str_contains, str_eq};

verus! {

/// Diagnostics to send to the editor for one document, replacing what it shows.
#[derive(Debug, Clone)]
pub struct Publication {
    pub uri: String,
    pub diagnostics: Vec<EditorDiagnostic>,
}

impl View for Publication {
    type V = (Seq<char>, Seq<EditorDiagnosticView>);

    open spec fn view(&self) -> (Seq<char>, Seq<EditorDiagnosticView>) {
        (self.uri@, diagnostic_views(self.diagnostics@))
    }
}

/// The views of a sequence of publications.
pub open spec fn publication_views(p: Seq<Publication>) -> Seq<
    (Seq<char>, Seq<EditorDiagnosticView>),
> {
    p.map_values(|x: Publication| x@)
}

/// A fast rebuild to ask of the analysis server: from the text in memory when
/// `content` is present, else from disk.
#[derive(Debug, Clone)]
pub struct RebuildRequest {
    pub port: u16,
    pub file_path: String,
    pub content: Option<String>,
}

/// What a save of a document calls for.
#[derive(Debug, Clone)]
pub enum SaveAction {
    /// Fast rebuild on save is off.
    Skip,
    /// Rebuild the file from disk.
    Rebuild(RebuildRequest),
    /// The analysis server's port is not known.
    NoPort,
    /// The document's URI names no local file.
    NoPath,
}

/// The state of a session.
#[derive(Debug, Clone)]
pub struct ServerState {
    pub config: Option<Config>,
    pub workspace_root: Option<String>,
    pub ide_port: Option<u16>,
    pub documents: Documents,
    pub last_build_errors: Vec<FileDiagnostics>,
    pub active_rebuild_token: Option<String>,
    pub rebuild_counter: u64,
}

/// The retractions of the files of the previous build: an empty list for each.
pub open spec fn retractions(last: Seq<(Seq<char>, Seq<RebuildError>)>) -> Seq<
    (Seq<char>, Seq<EditorDiagnosticView>),
> {
    last.map_values(|g: (Seq<char>, Seq<RebuildError>)| (g.0, Seq::<EditorDiagnosticView>::empty()))
}

/// The publications of a build's files: each file's diagnostics.
pub open spec fn file_publications(files: Seq<(Seq<char>, Seq<RebuildError>)>) -> Seq<
    (Seq<char>, Seq<EditorDiagnosticView>),
> {
    files.map_values(|g: (Seq<char>, Seq<RebuildError>)| (g.0, diagnostics_of(g.1)))
}

/// What publishing a build sends: first a retraction for every file of the
/// previous build, then the new build's diagnostics.
pub open spec fn build_publications(
    last: Seq<(Seq<char>, Seq<RebuildError>)>,
    files: Seq<(Seq<char>, Seq<RebuildError>)>,
) -> Seq<(Seq<char>, Seq<EditorDiagnosticView>)> {
    retractions(last) + file_publications(files)
}

/// What the editor shows after receiving `pubs`, starting from `m`: each
/// publication replaces the diagnostics of its document.
pub open spec fn shown(
    m: Map<Seq<char>, Seq<EditorDiagnosticView>>,
    pubs: Seq<(Seq<char>, Seq<EditorDiagnosticView>)>,
) -> Map<Seq<char>, Seq<EditorDiagnosticView>>
    decreases pubs.len(),
{
    if pubs.len() == 0 {
        m
    } else {
        shown(m.insert(pubs[0].0, pubs[0].1), pubs.drop_first())
    }
}

/// Some publication of `pubs` is for document `k`.
pub open spec fn publishes(pubs: Seq<(Seq<char>, Seq<EditorDiagnosticView>)>, k: Seq<char>) -> bool {
    exists|i: int| 0 <= i < pubs.len() && #[trigger] pubs[i].0 == k
}

/// The code actions offered for `range` of a document with diagnostics
/// `errors`: the quick fixes on that range, and the batch fix when the
/// document has at least two fixes.
pub open spec fn actions_for(errors: Seq<RebuildError>, range: EditorRange, uri: Seq<char>) -> Seq<
    CodeActionView,
> {
    if errors.len() == 0 {
        Seq::empty()
    } else if fixables(errors).len() > 1 {
        range_actions(errors, range, uri).push(batch_action(errors, uri))
    } else {
        range_actions(errors, range, uri)
    }
}

/// The prefix of the progress tokens of fast rebuilds.
pub open spec fn token_prefix() -> Seq<char> {
    "rebuild-"@
}

impl ServerState {
    /// The invariant of the document table.
    pub open spec fn wf(&self) -> bool {
        self.documents.wf()
    }

    /// Whether fast rebuild on save is on; off before initialization.
    pub open spec fn on_save(&self) -> bool {
        match self.config {
            Some(c) => c.fast_rebuild_on_save,
            None => false,
        }
    }

    /// Whether fast rebuild on change is on; off before initialization.
    pub open spec fn on_change(&self) -> bool {
        match self.config {
            Some(c) => c.fast_rebuild_on_change,
            None => false,
        }
    }

    /// The diagnostics held for document `uri`; none if it is unknown.
    pub open spec fn diagnostics_of_doc(&self, uri: Seq<char>) -> Seq<RebuildError> {
        if self.documents@.contains_key(uri) {
            self.documents@[uri].diagnostics
        } else {
            Seq::empty()
        }
    }

    /// Whether a change to a document with text `text` calls for a rebuild
    /// from memory: rebuild on change is on, the server's port is known, the
    /// document is a local file, and the text declares no foreign imports,
    /// which in-memory rebuilds cannot handle.
    pub open spec fn wants_live_rebuild(
        &self,
        text: Seq<char>,
        file_path: Option<Seq<char>>,
    ) -> bool {
        self.on_change() && self.ide_port is Some && file_path is Some && !contains(
            text,
            "foreign import"@,
        )
    }

    /// A request matches a live rebuild of `text` at `file_path`.
    pub open spec fn is_live_request(
        &self,
        r: RebuildRequest,
        text: Seq<char>,
        file_path: Option<Seq<char>>,
    ) -> bool {
        &&& Some(r.port) == self.ide_port
        &&& Some(r.file_path@) == file_path
        &&& opt_view(r.content) == Some(text)
    }

    /// The state of a session that has not been initialized.
    pub fn new() -> (r: ServerState)
        ensures
            r.wf(),
            r.config is None,
            r.workspace_root is None,
            r.ide_port is None,
            r.documents@ == Map::<Seq<char>, DocumentView>::empty(),
            r.last_build_errors@.len() == 0,
            r.active_rebuild_token is None,
            r.rebuild_counter == 0,
    {
        ServerState {
            config: None,
            workspace_root: None,
            ide_port: None,
            documents: Documents::new(),
            last_build_errors: Vec::new(),
            active_rebuild_token: None,
            rebuild_counter: 0,
        }
    }

    /// Whether fast rebuild on save is enabled (false before initialization).
    pub fn fast_rebuild_on_save(&self) -> (r: bool)
        ensures
            r == self.on_save(),
    {
        match &self.config {
            Some(c) => c.fast_rebuild_on_save,
            None => false,
        }
    }

    /// Whether fast rebuild on change is enabled (false before initialization).
    pub fn fast_rebuild_on_change(&self) -> (r: bool)
        ensures
            r == self.on_change(),
    {
        match &self.config {
            Some(c) => c.fast_rebuild_on_change,
            None => false,
        }
    }

    /// The configured formatter (none before initialization).
    pub fn formatter(&self) -> (r: Option<Formatter>)
        ensures
            r == (match self.config {
                Some(c) => Some(c.formatter),
                None => None,
            }),
    {
        match &self.config {
            Some(c) => Some(c.formatter),
            None => None,
        }
    }

    /// Whether the session holds a configuration.
    pub fn is_initialized(&self) -> (r: bool)
        ensures
            r == self.config is Some,
    {
        self.config.is_some()
    }

    fn live_request(&self, text: &String, file_path: Option<String>) -> (r: Option<RebuildRequest>)
        ensures
            r is Some <==> self.wants_live_rebuild(text@, opt_view(file_path)),
            r is Some ==> self.is_live_request(r->0, text@, opt_view(file_path)),
    {
        if !self.fast_rebuild_on_change() {
            return None;
        }
        match (self.ide_port, file_path) {
            (Some(port), Some(path)) => {
                if str_contains(text.as_str(), "foreign import") {
                    None
                } else {
                    Some(RebuildRequest { port, file_path: path, content: Some(text.clone()) })
                }
            },
            _ => None,
        }
    }

    fn store_text(&mut self, uri: String, text: String)
        requires
            old(self).wf(),
        ensures
            final(self).wf(),
            final(self).documents@ == old(self).documents@.insert(
                uri@,
                DocumentView {
                    uri: uri@,
                    live_text: Some(text@),
                    diagnostics: old(self).diagnostics_of_doc(uri@),
                },
            ),
            final(self).config == old(self).config,
            final(self).ide_port == old(self).ide_port,
            groups_view(final(self).last_build_errors@) == groups_view(old(self).last_build_errors@),
            final(self).active_rebuild_token == old(self).active_rebuild_token,
    {
        let old_doc = self.documents.take(uri.as_str());
        let diagnostics = match old_doc {
            Some(d) => d.diagnostics,
            None => Vec::new(),
        };
        let doc = DocumentState { uri, live_text: Some(text), diagnostics };
        self.documents.put(doc);
        assert(self.documents@ =~= old(self).documents@.insert(
            uri@,
            DocumentView {
                uri: uri@,
                live_text: Some(text@),
                diagnostics: old(self).diagnostics_of_doc(uri@),
            },
        ));
    }

    /// A document was opened with `text`: its live text is stored, and a
    /// rebuild from memory is requested when `wants_live_rebuild` holds.
    pub fn did_open(&mut self, uri: String, text: String, file_path: Option<String>) -> (r: Option<
        RebuildRequest,
    >)
        requires
            old(self).wf(),
        ensures
            final(self).wf(),
            final(self).documents@ == old(self).documents@.insert(
                uri@,
                DocumentView {
                    uri: uri@,
                    live_text: Some(text@),
                    diagnostics: old(self).diagnostics_of_doc(uri@),
                },
            ),
            r is Some <==> old(self).wants_live_rebuild(text@, opt_view(file_path)),
            r is Some ==> old(self).is_live_request(r->0, text@, opt_view(file_path)),
    {
        let req = self.live_request(&text, file_path);
        self.store_text(uri, text);
        req
    }

    /// A document's text was replaced wholesale by `text`; as on opening.
    pub fn did_change(&mut self, uri: String, text: String, file_path: Option<String>) -> (r:
        Option<RebuildRequest>)
        requires
            old(self).wf(),
        ensures
            final(self).wf(),
            final(self).documents@ == old(self).documents@.insert(
                uri@,
                DocumentView {
                    uri: uri@,
                    live_text: Some(text@),
                    diagnostics: old(self).diagnostics_of_doc(uri@),
                },
            ),
            r is Some <==> old(self).wants_live_rebuild(text@, opt_view(file_path)),
            r is Some ==> old(self).is_live_request(r->0, text@, opt_view(file_path)),
    {
        self.did_open(uri, text, file_path)
    }

    /// A document came into focus: a rebuild from its live text is requested
    /// when it has one and `wants_live_rebuild` holds.
    pub fn handle_document_focus(&self, uri: &str, file_path: Option<String>) -> (r: Option<
        RebuildRequest,
    >)
        requires
            self.wf(),
        ensures
            r is Some <==> (self.documents@.contains_key(uri@) && (
            self.documents@[uri@].live_text is Some) && self.wants_live_rebuild(
                self.documents@[uri@].live_text->0,
                opt_view(file_path),
            )),
            r is Some ==> self.is_live_request(
                r->0,
                self.documents@[uri@].live_text->0,
                opt_view(file_path),
            ),
    {
        match self.documents.get(uri) {
            Some(doc) => match &doc.live_text {
                Some(text) => self.live_request(text, file_path),
                None => None,
            },
            None => None,
        }
    }

    /// A document was saved: with rebuild on save on, a rebuild from disk.
    pub fn did_save(&self, file_path: Option<String>) -> (r: SaveAction)
        ensures
            !self.on_save() ==> r is Skip,
            self.on_save() && self.ide_port is None ==> r is NoPort,
            self.on_save() && self.ide_port is Some && file_path is None ==> r is NoPath,
            self.on_save() && self.ide_port is Some && file_path is Some ==> (r matches SaveAction::Rebuild(q)
                && Some(q.port) == self.ide_port && Some(q.file_path@) == opt_view(file_path)
                && q.content is None),
    {
        if !self.fast_rebuild_on_save() {
            return SaveAction::Skip;
        }
        match self.ide_port {
            None => SaveAction::NoPort,
            Some(port) => match file_path {
                None => SaveAction::NoPath,
                Some(path) => SaveAction::Rebuild(
                    RebuildRequest { port, file_path: path, content: None },
                ),
            },
        }
    }

    /// A document was closed: it is forgotten, and its diagnostics are retracted.
    pub fn did_close(&mut self, uri: String) -> (r: Publication)
        requires
            old(self).wf(),
        ensures
            final(self).wf(),
            final(self).documents@ == old(self).documents@.remove(uri@),
            r@ == (uri@, Seq::<EditorDiagnosticView>::empty()),
    {
        let _ = self.documents.take(uri.as_str());
        let r = Publication { uri, diagnostics: Vec::new() };
        assert(r@.1 =~= Seq::<EditorDiagnosticView>::empty());
        r
    }

    /// A fresh progress token for a fast rebuild: `rebuild-` and a counter.
    pub fn next_rebuild_token(&mut self) -> (r: String)
        ensures
            r@ == token_prefix() + decimal(old(self).rebuild_counter as nat),
            final(self).rebuild_counter == if old(self).rebuild_counter < u64::MAX {
                old(self).rebuild_counter + 1
            } else {
                old(self).rebuild_counter as int
            },
            final(self).documents == old(self).documents,
            final(self).active_rebuild_token == old(self).active_rebuild_token,
    {
        let mut s = String::from_str("rebuild-");
        push_decimal(&mut s, self.rebuild_counter);
        if self.rebuild_counter < u64::MAX {
            self.rebuild_counter = self.rebuild_counter + 1;
        }
        s
    }

    /// A fast rebuild starts under `token`, which becomes the one active
    /// progress token; the token it replaces, if any, is returned so that its
    /// progress indicator can be ended first.
    pub fn begin_rebuild(&mut self, token: String) -> (r: Option<String>)
        ensures
            opt_view(r) == opt_view(old(self).active_rebuild_token),
            opt_view(final(self).active_rebuild_token) == Some(token@),
            final(self).documents == old(self).documents,
    {
        let previous = self.active_rebuild_token.take();
        self.active_rebuild_token = Some(token);
        previous
    }

    fn retire_token(&mut self, token: &str)
        ensures
            opt_view(final(self).active_rebuild_token) == (if opt_view(
                old(self).active_rebuild_token,
            ) == Some(token@) {
                None
            } else {
                opt_view(old(self).active_rebuild_token)
            }),
            final(self).documents == old(self).documents,
    {
        let is_active = match &self.active_rebuild_token {
            Some(t) => str_eq(t.as_str(), token),
            None => false,
        };
        if is_active {
            self.active_rebuild_token = None;
        }
    }

    /// A fast rebuild under `token` failed: its token is retired if still
    /// active, and every diagnostic stays as it was.
    pub fn abandon_rebuild(&mut self, token: &str)
        requires
            old(self).wf(),
        ensures
            final(self).wf(),
            final(self).documents@ == old(self).documents@,
            opt_view(final(self).active_rebuild_token) == (if opt_view(
                old(self).active_rebuild_token,
            ) == Some(token@) {
                None
            } else {
                opt_view(old(self).active_rebuild_token)
            }),
    {
        self.retire_token(token);
    }

    /// A fast rebuild of document `uri` under `token` succeeded with
    /// `errors`: they replace the document's diagnostics wholesale (an empty
    /// list clears them), the token is retired if still active, and the new
    /// set is published.
    pub fn finish_rebuild(&mut self, uri: String, token: &str, errors: Vec<RebuildError>) -> (r:
        Publication)
        requires
            old(self).wf(),
        ensures
            final(self).wf(),
            final(self).documents@ == old(self).documents@.insert(
                uri@,
                DocumentView {
                    uri: uri@,
                    live_text: if old(self).documents@.contains_key(uri@) {
                        old(self).documents@[uri@].live_text
                    } else {
                        None
                    },
                    diagnostics: errors@,
                },
            ),
            r@ == (uri@, diagnostics_of(errors@)),
            opt_view(final(self).active_rebuild_token) == (if opt_view(
                old(self).active_rebuild_token,
            ) == Some(token@) {
                None
            } else {
                opt_view(old(self).active_rebuild_token)
            }),
    {
        self.retire_token(token);
        let diagnostics = convert_rebuild_errors(errors.as_slice());
        let live_text = match self.documents.take(uri.as_str()) {
            Some(d) => d.live_text,
            None => None,
        };
        let published_uri = uri.clone();
        let doc = DocumentState { uri, live_text, diagnostics: errors };
        self.documents.put(doc);
        assert(self.documents@ =~= old(self).documents@.insert(
            uri@,
            DocumentView {
                uri: uri@,
                live_text: if old(self).documents@.contains_key(uri@) {
                    old(self).documents@[uri@].live_text
                } else {
                    None
                },
                diagnostics: errors@,
            },
        ));
        Publication { uri: published_uri, diagnostics }
    }

    /// A full build finished with `files`, each a document URI and its
    /// diagnostics: every document of the previous build is retracted, then
    /// each file's diagnostics are published, and the files become the
    /// previous build.
    pub fn apply_build(&mut self, files: Vec<FileDiagnostics>) -> (r: Vec<Publication>)
        ensures
            publication_views(r@) == build_publications(
                groups_view(old(self).last_build_errors@),
                groups_view(files@),
            ),
            groups_view(final(self).last_build_errors@) == groups_view(files@),
            final(self).documents == old(self).documents,
            final(self).active_rebuild_token == old(self).active_rebuild_token,
    {
        let ghost last = groups_view(self.last_build_errors@);
        let ghost fv = groups_view(files@);
        let mut out: Vec<Publication> = Vec::new();
        let mut i: usize = 0;
        while i < self.last_build_errors.len()
            invariant
                i <= self.last_build_errors@.len(),
                last == groups_view(self.last_build_errors@),
                publication_views(out@) == retractions(last).take(i as int),
            decreases self.last_build_errors@.len() - i,
        {
            let p = Publication {
                uri: self.last_build_errors[i].path.clone(),
                diagnostics: Vec::new(),
            };
            let ghost before = out@;
            out.push(p);
            assert(publication_views(out@) =~= retractions(last).take(i + 1)) by {
                assert(p@.1 =~= Seq::<EditorDiagnosticView>::empty());
                assert(publication_views(before.push(p)) =~= publication_views(before).push(p@));
            }
            i = i + 1;
        }
        assert(retractions(last).take(last.len() as int) =~= retractions(last));
        let mut j: usize = 0;
        while j < files.len()
            invariant
                j <= files@.len(),
                fv == groups_view(files@),
                publication_views(out@) == retractions(last) + file_publications(fv).take(
                    j as int,
                ),
            decreases files@.len() - j,
        {
            let diagnostics = convert_rebuild_errors(files[j].diagnostics.as_slice());
            let p = Publication { uri: files[j].path.clone(), diagnostics };
            let ghost before = out@;
            out.push(p);
            assert(publication_views(out@) =~= retractions(last) + file_publications(fv).take(
                j + 1,
            )) by {
                assert(publication_views(before.push(p)) =~= publication_views(before).push(p@));
            }
            j = j + 1;
        }
        assert(file_publications(fv).take(fv.len() as int) =~= file_publications(fv));
        self.last_build_errors = files;
        out
    }

    /// The code actions for `range` of document `uri`: the quick fixes on
    /// that range, and the batch fix when the document has at least two.
    pub fn code_actions(&self, uri: &str, range: &EditorRange) -> (r: Vec<CodeAction>)
        requires
            self.wf(),
        ensures
            action_views(r@) == actions_for(self.diagnostics_of_doc(uri@), *range, uri@),
    {
        match self.documents.get(uri) {
            None => Vec::new(),
            Some(doc) => {
                let errors = doc.diagnostics.as_slice();
                if errors.len() == 0 {
                    assert(action_views(Seq::<CodeAction>::empty()) =~= Seq::<
                        CodeActionView,
                    >::empty());
                    return Vec::new();
                }
                let mut actions = generate_code_actions(uri, range, errors);
                match create_apply_all_action(uri, errors) {
                    Some(batch) => {
                        let ghost before = actions@;
                        actions.push(batch);
                        assert(action_views(actions@) =~= action_views(before).push(batch@));
                    },
                    None => {},
                }
                actions
            },
        }
    }
}

impl Default for ServerState {
    fn default() -> (r: ServerState)
        ensures
            r.wf(),
            r.config is None,
            r.documents@ == Map::<Seq<char>, DocumentView>::empty(),
            r.last_build_errors@.len() == 0,
            r.active_rebuild_token is None,
    {
        ServerState::new()
    }
}

proof fn lemma_shown_concat(
    m: Map<Seq<char>, Seq<EditorDiagnosticView>>,
    a: Seq<(Seq<char>, Seq<EditorDiagnosticView>)>,
    b: Seq<(Seq<char>, Seq<EditorDiagnosticView>)>,
)
    ensures
        shown(m, a + b) == shown(shown(m, a), b),
    decreases a.len(),
{
    if a.len() == 0 {
        assert(a + b =~= b);
    } else {
        assert((a + b).drop_first() =~= a.drop_first() + b);
        assert((a + b)[0] == a[0]);
        lemma_shown_concat(m.insert(a[0].0, a[0].1), a.drop_first(), b);
    }
}

/// Publications leave every document that none of them names as it was.
proof fn lemma_shown_outside(
    m: Map<Seq<char>, Seq<EditorDiagnosticView>>,
    pubs: Seq<(Seq<char>, Seq<EditorDiagnosticView>)>,
    k: Seq<char>,
)
    requires
        !publishes(pubs, k),
    ensures
        shown(m, pubs).contains_key(k) == m.contains_key(k),
        m.contains_key(k) ==> shown(m, pubs)[k] == m[k],
    decreases pubs.len(),
{
    if pubs.len() > 0 {
        let rest = pubs.drop_first();
        assert(pubs[0].0 != k);
        assert(!publishes(rest, k)) by {
            if publishes(rest, k) {
                let i = choose|i: int| 0 <= i < rest.len() && #[trigger] rest[i].0 == k;
                assert(pubs[i + 1].0 == k);
            }
        }
        lemma_shown_outside(m.insert(pubs[0].0, pubs[0].1), rest, k);
    }
}

/// Two starting points that agree on every document that `pubs` does not
/// name end up the same.
proof fn lemma_shown_absorb(
    x: Map<Seq<char>, Seq<EditorDiagnosticView>>,
    y: Map<Seq<char>, Seq<EditorDiagnosticView>>,
    pubs: Seq<(Seq<char>, Seq<EditorDiagnosticView>)>,
)
    requires
        forall|k: Seq<char>|
            !publishes(pubs, k) ==> (#[trigger] x.contains_key(k) == y.contains_key(k) && (
            x.contains_key(k) ==> x[k] == y[k])),
    ensures
        shown(x, pubs) == shown(y, pubs),
    decreases pubs.len(),
{
    if pubs.len() == 0 {
        assert forall|k: Seq<char>| #[trigger] x.contains_key(k) == y.contains_key(k) && (
        x.contains_key(k) ==> x[k] == y[k]) by {
            assert(!publishes(pubs, k));
        }
        assert(x =~= y);
    } else {
        let rest = pubs.drop_first();
        let x2 = x.insert(pubs[0].0, pubs[0].1);
        let y2 = y.insert(pubs[0].0, pubs[0].1);
        assert forall|k: Seq<char>| !publishes(rest, k) implies (#[trigger] x2.contains_key(k)
            == y2.contains_key(k) && (x2.contains_key(k) ==> x2[k] == y2[k])) by {
            if k != pubs[0].0 {
                assert(!publishes(pubs, k)) by {
                    if publishes(pubs, k) {
                        let i = choose|i: int| 0 <= i < pubs.len() && #[trigger] pubs[i].0 == k;
                        assert(i > 0);
                        assert(rest[i - 1].0 == k);
                    }
                }
            }
        }
        lemma_shown_absorb(x2, y2, rest);
    }
}

/// Publishing the same publications again changes nothing.
proof fn lemma_shown_twice(
    m: Map<Seq<char>, Seq<EditorDiagnosticView>>,
    pubs: Seq<(Seq<char>, Seq<EditorDiagnosticView>)>,
)
    ensures
        shown(shown(m, pubs), pubs) == shown(m, pubs),
{
    let x = shown(m, pubs);
    assert forall|k: Seq<char>| !publishes(pubs, k) implies (#[trigger] x.contains_key(k)
        == m.contains_key(k) && (x.contains_key(k) ==> x[k] == m[k])) by {
        lemma_shown_outside(m, pubs, k);
    }
    lemma_shown_absorb(x, m, pubs);
}

/// Publishing a build twice leaves the editor showing what publishing it once
/// does: the second round retracts exactly the files that it then publishes
/// anew, and the new previous build is the same both times.
pub proof fn lemma_build_publication_idempotent(
    m: Map<Seq<char>, Seq<EditorDiagnosticView>>,
    last: Seq<(Seq<char>, Seq<RebuildError>)>,
    files: Seq<(Seq<char>, Seq<RebuildError>)>,
)
    ensures
        shown(shown(m, build_publications(last, files)), build_publications(files, files))
            == shown(m, build_publications(last, files)),
{
    let p = file_publications(files);
    let r = retractions(files);
    let once = shown(m, build_publications(last, files));
    lemma_shown_concat(m, retractions(last), p);
    let y = shown(m, retractions(last));
    lemma_shown_twice(y, p);
    lemma_shown_concat(once, r, p);
    let z = shown(once, r);
    assert forall|k: Seq<char>| !publishes(p, k) implies (#[trigger] z.contains_key(k)
        == once.contains_key(k) && (z.contains_key(k) ==> z[k] == once[k])) by {
        assert(!publishes(r, k)) by {
            if publishes(r, k) {
                let i = choose|i: int| 0 <= i < r.len() && #[trigger] r[i].0 == k;
                assert(p[i].0 == k);
            }
        }
        lemma_shown_outside(once, r, k);
    }
    lemma_shown_absorb(z, once, p);
}

/// Once a document is closed, the editor shows no diagnostics for it, and the
/// session offers no code actions for it, whatever it held before.
pub proof fn lemma_close_clears(
    m: Map<Seq<char>, Seq<EditorDiagnosticView>>,
    s: ServerState,
    uri: Seq<char>,
    range: EditorRange,
)
    requires
        !s.documents@.contains_key(uri),
    ensures
        shown(m, seq![(uri, Seq::<EditorDiagnosticView>::empty())])[uri].len() == 0,
        actions_for(s.diagnostics_of_doc(uri), range, uri).len() == 0,
{
    let pubs = seq![(uri, Seq::<EditorDiagnosticView>::empty())];
    let m2 = m.insert(uri, Seq::<EditorDiagnosticView>::empty());
    assert(pubs.drop_first() =~= Seq::<(Seq<char>, Seq<EditorDiagnosticView>)>::empty());
    assert(shown(m2, pubs.drop_first()) == m2);
    assert(shown(m, pubs) == shown(m2, pubs.drop_first()));
}

proof fn lemma_no_fixes(errors: Seq<RebuildError>, range: EditorRange, uri: Seq<char>)
    requires
        forall|q: int| 0 <= q < errors.len() ==> !is_fixable(#[trigger] errors[q]),
    ensures
        fixables(errors).len() == 0,
        range_actions(errors, range, uri).len() == 0,
    decreases errors.len(),
{
    if errors.len() > 0 {
        lemma_no_fixes(errors.drop_last(), range, uri);
    }
}

/// A document whose only fixable diagnostic is `errors[j]` gets no batch fix,
/// and a request for a range that shares a line with that diagnostic gets
/// exactly one action, its quick fix.
pub proof fn lemma_single_fix(
    errors: Seq<RebuildError>,
    j: int,
    range: EditorRange,
    uri: Seq<char>,
)
    requires
        0 <= j < errors.len(),
        is_fixable(errors[j]),
        forall|q: int| 0 <= q < errors.len() && q != j ==> !is_fixable(#[trigger] errors[q]),
        lines_overlap(editor_range_of(errors[j].position), range),
    ensures
        fixables(errors).len() == 1,
        range_actions(errors, range, uri).len() == 1,
        actions_for(errors, range, uri).len() == 1,
    decreases errors.len(),
{
    let init = errors.drop_last();
    if j == errors.len() - 1 {
        lemma_no_fixes(init, range, uri);
    } else {
        assert forall|q: int| 0 <= q < init.len() && q != j implies !is_fixable(
            #[trigger] init[q],
        ) by {
            assert(init[q] == errors[q]);
        }
        lemma_single_fix(init, j, range, uri);
    }
}

} // verus!
