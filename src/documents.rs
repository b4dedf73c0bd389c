//! The open documents: per URI, the live text while the editor has the
//! document open and the diagnostics of its latest rebuild.
use vstd::prelude::*;
use crate::model::RebuildError;
use crate::text::str_eq;

verus! {

/// One document known to the session.
#[derive(Debug, Clone)]
pub struct DocumentState {
    pub uri: String,
    pub live_text: Option<String>,
    pub diagnostics: Vec<RebuildError>,
}

/// What a document holds, as mathematical values.
pub struct DocumentView {
    pub uri: Seq<char>,
    pub live_text: Option<Seq<char>>,
    pub diagnostics: Seq<RebuildError>,
}

/// The view of an optional string.
pub open spec fn opt_view(s: Option<String>) -> Option<Seq<char>> {
    match s {
        Some(t) => Some(t@),
        None => None,
    }
}

impl View for DocumentState {
    type V = DocumentView;

    open spec fn view(&self) -> DocumentView {
        DocumentView {
            uri: self.uri@,
            live_text: opt_view(self.live_text),
            diagnostics: self.diagnostics@,
        }
    }
}

/// The views of a sequence of documents.
pub open spec fn doc_views(s: Seq<DocumentState>) -> Seq<DocumentView> {
    s.map_values(|d: DocumentState| d@)
}

/// No two documents share a URI.
pub open spec fn unique_uris(s: Seq<DocumentView>) -> bool {
    forall|i: int, j: int| 0 <= i < j < s.len() ==> #[trigger] s[i].uri != #[trigger] s[j].uri
}

/// The index of the first document with URI `u` at or after `i`, or the length of `s`.
pub open spec fn doc_index(s: Seq<DocumentView>, u: Seq<char>, i: int) -> int
    decreases s.len() - i,
{
    if i < 0 || i >= s.len() {
        s.len() as int
    } else if s[i].uri == u {
        i
    } else {
        doc_index(s, u, i + 1)
    }
}

/// The documents as a map from URI.
pub open spec fn doc_map(s: Seq<DocumentView>) -> Map<Seq<char>, DocumentView> {
    Map::new(|u: Seq<char>| doc_index(s, u, 0) < s.len(), |u: Seq<char>| s[doc_index(s, u, 0)])
}

proof fn lemma_doc_index_found(s: Seq<DocumentView>, u: Seq<char>, i: int, j: int)
    requires
        0 <= i <= j < s.len(),
        s[j].uri == u,
        forall|q: int| i <= q < j ==> #[trigger] s[q].uri != u,
    ensures
        doc_index(s, u, i) == j,
    decreases j - i,
{
    if i < j {
        lemma_doc_index_found(s, u, i + 1, j);
    }
}

proof fn lemma_doc_index_absent(s: Seq<DocumentView>, u: Seq<char>, i: int)
    requires
        0 <= i <= s.len(),
        forall|q: int| i <= q < s.len() ==> #[trigger] s[q].uri != u,
    ensures
        doc_index(s, u, i) == s.len(),
    decreases s.len() - i,
{
    if i < s.len() {
        lemma_doc_index_absent(s, u, i + 1);
    }
}

proof fn lemma_doc_index_props(s: Seq<DocumentView>, u: Seq<char>, i: int)
    requires
        0 <= i <= s.len(),
    ensures
        i <= doc_index(s, u, i) <= s.len(),
        doc_index(s, u, i) < s.len() ==> s[doc_index(s, u, i)].uri == u,
        forall|q: int| i <= q < doc_index(s, u, i) ==> #[trigger] s[q].uri != u,
    decreases s.len() - i,
{
    if 0 <= i < s.len() && s[i].uri != u {
        lemma_doc_index_props(s, u, i + 1);
    }
}

/// In a table with unique URIs, the document with URI `u` is at index `j`
/// exactly when `s[j]` has that URI.
proof fn lemma_unique_index(s: Seq<DocumentView>, u: Seq<char>, j: int)
    requires
        unique_uris(s),
        0 <= j < s.len(),
        s[j].uri == u,
    ensures
        doc_index(s, u, 0) == j,
{
    assert forall|q: int| 0 <= q < j implies #[trigger] s[q].uri != u by {
        assert(s[q].uri != s[j].uri);
    }
    lemma_doc_index_found(s, u, 0, j);
}

proof fn lemma_map_update(s: Seq<DocumentView>, j: int, x: DocumentView)
    requires
        unique_uris(s),
        0 <= j < s.len(),
        x.uri == s[j].uri,
    ensures
        unique_uris(s.update(j, x)),
        doc_map(s.update(j, x)) == doc_map(s).insert(x.uri, x),
{
    let t = s.update(j, x);
    assert forall|a: int, b: int| 0 <= a < b < t.len() implies #[trigger] t[a].uri
        != #[trigger] t[b].uri by {
        assert(s[a].uri != s[b].uri);
    }
    assert forall|u: Seq<char>| #[trigger] doc_map(t).contains_key(u) == doc_map(s).insert(
        x.uri,
        x,
    ).contains_key(u) && (doc_map(t).contains_key(u) ==> doc_map(t)[u] == doc_map(s).insert(
        x.uri,
        x,
    )[u]) by {
        lemma_doc_index_props(s, u, 0);
        lemma_doc_index_props(t, u, 0);
        let k = doc_index(s, u, 0);
        if u == x.uri {
            lemma_unique_index(t, u, j);
            lemma_unique_index(s, u, j);
        } else if k < s.len() {
            lemma_unique_index(t, u, k);
        } else {
            lemma_doc_index_absent(t, u, 0);
        }
    }
    assert(doc_map(t) =~= doc_map(s).insert(x.uri, x));
}

proof fn lemma_map_push(s: Seq<DocumentView>, x: DocumentView)
    requires
        unique_uris(s),
        doc_index(s, x.uri, 0) == s.len(),
    ensures
        unique_uris(s.push(x)),
        doc_map(s.push(x)) == doc_map(s).insert(x.uri, x),
{
    let t = s.push(x);
    lemma_doc_index_props(s, x.uri, 0);
    assert forall|a: int, b: int| 0 <= a < b < t.len() implies #[trigger] t[a].uri
        != #[trigger] t[b].uri by {
        if b < s.len() {
            assert(s[a].uri != s[b].uri);
        } else {
            assert(s[a].uri != x.uri);
        }
    }
    assert forall|u: Seq<char>| #[trigger] doc_map(t).contains_key(u) == doc_map(s).insert(
        x.uri,
        x,
    ).contains_key(u) && (doc_map(t).contains_key(u) ==> doc_map(t)[u] == doc_map(s).insert(
        x.uri,
        x,
    )[u]) by {
        lemma_doc_index_props(s, u, 0);
        let k = doc_index(s, u, 0);
        if u == x.uri {
            lemma_unique_index(t, u, s.len() as int);
        } else if k < s.len() {
            lemma_unique_index(t, u, k);
        } else {
            lemma_doc_index_absent(t, u, 0);
        }
    }
    assert(doc_map(t) =~= doc_map(s).insert(x.uri, x));
}

proof fn lemma_map_remove(s: Seq<DocumentView>, j: int)
    requires
        unique_uris(s),
        0 <= j < s.len(),
    ensures
        unique_uris(s.remove(j)),
        doc_map(s.remove(j)) == doc_map(s).remove(s[j].uri),
{
    let t = s.remove(j);
    let key = s[j].uri;
    assert forall|a: int, b: int| 0 <= a < b < t.len() implies #[trigger] t[a].uri
        != #[trigger] t[b].uri by {
        let a2 = if a < j { a } else { a + 1 };
        let b2 = if b < j { b } else { b + 1 };
        assert(t[a] == s[a2]);
        assert(t[b] == s[b2]);
        assert(s[a2].uri != s[b2].uri);
    }
    assert forall|u: Seq<char>| #[trigger] doc_map(t).contains_key(u) == doc_map(s).remove(
        key,
    ).contains_key(u) && (doc_map(t).contains_key(u) ==> doc_map(t)[u] == doc_map(s).remove(
        key,
    )[u]) by {
        lemma_doc_index_props(s, u, 0);
        let k = doc_index(s, u, 0);
        if u == key {
            assert forall|q: int| 0 <= q < t.len() implies #[trigger] t[q].uri != u by {
                let q2 = if q < j { q } else { q + 1 };
                assert(t[q] == s[q2]);
                assert(s[q2].uri != s[j].uri);
            }
            lemma_doc_index_absent(t, u, 0);
        } else if k < s.len() {
            lemma_unique_index(s, u, k);
            let k2 = if k < j { k } else { k - 1 };
            assert(k != j);
            assert(t[k2] == s[k]);
            lemma_unique_index(t, u, k2);
        } else {
            assert forall|q: int| 0 <= q < t.len() implies #[trigger] t[q].uri != u by {
                let q2 = if q < j { q } else { q + 1 };
                assert(t[q] == s[q2]);
            }
            lemma_doc_index_absent(t, u, 0);
        }
    }
    assert(doc_map(t) =~= doc_map(s).remove(key));
}

/// The documents of a session, keyed by URI.
#[derive(Debug, Clone)]
pub struct Documents {
    entries: Vec<DocumentState>,
}

impl View for Documents {
    type V = Map<Seq<char>, DocumentView>;

    closed spec fn view(&self) -> Map<Seq<char>, DocumentView> {
        doc_map(doc_views(self.entries@))
    }
}

impl Documents {
    /// No two entries share a URI.
    pub closed spec fn wf(&self) -> bool {
        unique_uris(doc_views(self.entries@))
    }

    /// A table with no documents.
    pub fn new() -> (r: Documents)
        ensures
            r.wf(),
            r@ == Map::<Seq<char>, DocumentView>::empty(),
    {
        let r = Documents { entries: Vec::new() };
        assert(r@ =~= Map::<Seq<char>, DocumentView>::empty());
        r
    }

    fn find(&self, uri: &str) -> (r: usize)
        ensures
            r == doc_index(doc_views(self.entries@), uri@, 0),
            r <= self.entries@.len(),
    {
        let ghost s = doc_views(self.entries@);
        let mut j: usize = 0;
        while j < self.entries.len()
            invariant
                s == doc_views(self.entries@),
                j <= self.entries@.len(),
                doc_index(s, uri@, 0) == doc_index(s, uri@, j as int),
            decreases self.entries@.len() - j,
        {
            if str_eq(self.entries[j].uri.as_str(), uri) {
                return j;
            }
            j = j + 1;
        }
        j
    }

    /// The document with URI `uri`, if any.
    pub fn get(&self, uri: &str) -> (r: Option<&DocumentState>)
        requires
            self.wf(),
        ensures
            r is Some <==> self@.contains_key(uri@),
            r is Some ==> r->0@ == self@[uri@],
    {
        let j = self.find(uri);
        if j < self.entries.len() {
            Some(&self.entries[j])
        } else {
            None
        }
    }

    /// Stores `doc`, replacing the document with the same URI if there is one.
    pub fn put(&mut self, doc: DocumentState)
        requires
            old(self).wf(),
        ensures
            final(self).wf(),
            final(self)@ == old(self)@.insert(doc@.uri, doc@),
    {
        let ghost s = doc_views(self.entries@);
        let j = self.find(doc.uri.as_str());
        let ghost dv = doc@;
        if j < self.entries.len() {
            proof {
                lemma_doc_index_props(s, dv.uri, 0);
                lemma_map_update(s, j as int, dv);
            }
            self.entries.set(j, doc);
            assert(doc_views(self.entries@) =~= s.update(j as int, dv));
        } else {
            proof {
                lemma_map_push(s, dv);
            }
            self.entries.push(doc);
            assert(doc_views(self.entries@) =~= s.push(dv));
        }
    }

    /// Removes and returns the document with URI `uri`, if any.
    pub fn take(&mut self, uri: &str) -> (r: Option<DocumentState>)
        requires
            old(self).wf(),
        ensures
            final(self).wf(),
            final(self)@ == old(self)@.remove(uri@),
            r is Some <==> old(self)@.contains_key(uri@),
            r is Some ==> r->0@ == old(self)@[uri@],
    {
        let ghost s = doc_views(self.entries@);
        let j = self.find(uri);
        proof {
            lemma_doc_index_props(s, uri@, 0);
        }
        if j < self.entries.len() {
            proof {
                lemma_map_remove(s, j as int);
            }
            let d = self.entries.remove(j);
            assert(doc_views(self.entries@) =~= s.remove(j as int));
            Some(d)
        } else {
            assert(self@ =~= old(self)@.remove(uri@));
            None
        }
    }
}

} // verus!
