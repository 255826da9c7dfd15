//! The versioned document store and the validation controller's decisions.
//!
//! The store maps a document URI to its current text and editor-assigned
//! version, one entry per URI. The controller functions decide, from plain
//! values, what the server publishes: a completed validation publishes only
//! when the document is still at the snapshotted version, and closing a
//! document clears its diagnostics.

use vstd::prelude::*;

use crate::diagnostics::{parse_jenkins_response, parse_spec, views_of, DiagView, Diagnostic};
use crate::types::ValidationResult;

verus! {

/// The store's image of one open document: its text and the version the
/// editor assigned to it.
pub struct StoredDoc {
    pub text: Seq<char>,
    pub version: int,
}

struct DocEntry {
    uri: String,
    text: String,
    version: i32,
}

spec fn entry_doc(e: DocEntry) -> StoredDoc {
    StoredDoc { text: e.text@, version: e.version as int }
}

spec fn map_of(es: Seq<DocEntry>) -> Map<Seq<char>, StoredDoc>
    decreases es.len(),
{
    if es.len() == 0 {
        Map::empty()
    } else {
        map_of(es.drop_last()).insert(es.last().uri@, entry_doc(es.last()))
    }
}

spec fn uris_unique(es: Seq<DocEntry>) -> bool {
    forall|a: int, b: int| 0 <= a < b < es.len() ==> es[a].uri@ != es[b].uri@
}

/// Versioned in-memory map from document URI to current text: at most one
/// entry per URI, and a read returns a consistent text/version pair.
pub struct DocumentStore {
    entries: Vec<DocEntry>,
}

impl View for DocumentStore {
    type V = Map<Seq<char>, StoredDoc>;

    closed spec fn view(&self) -> Map<Seq<char>, StoredDoc> {
        map_of(self.entries@)
    }
}

proof fn lemma_map_of_present(es: Seq<DocEntry>, k: int)
    requires
        0 <= k < es.len(),
        uris_unique(es),
    ensures
        map_of(es).contains_key(es[k].uri@),
        map_of(es)[es[k].uri@] == entry_doc(es[k]),
    decreases es.len(),
{
    if k < es.len() - 1 {
        let prefix = es.drop_last();
        assert(uris_unique(prefix));
        lemma_map_of_present(prefix, k);
        assert(es.last().uri@ != es[k].uri@);
    }
}

proof fn lemma_map_of_absent(es: Seq<DocEntry>, u: Seq<char>)
    requires
        forall|k: int| 0 <= k < es.len() ==> es[k].uri@ != u,
    ensures
        !map_of(es).contains_key(u),
    decreases es.len(),
{
    if es.len() > 0 {
        lemma_map_of_absent(es.drop_last(), u);
    }
}

proof fn lemma_unique_remove(es: Seq<DocEntry>, k: int)
    requires
        0 <= k < es.len(),
        uris_unique(es),
    ensures
        uris_unique(es.remove(k)),
{
    assert forall|a: int, b: int|
        0 <= a < b < es.remove(k).len() implies es.remove(k)[a].uri@ != es.remove(k)[b].uri@ by {
        let a0 = if a < k {
            a
        } else {
            a + 1
        };
        let b0 = if b < k {
            b
        } else {
            b + 1
        };
        assert(es.remove(k)[a] == es[a0]);
        assert(es.remove(k)[b] == es[b0]);
    }
}

proof fn lemma_map_of_remove(es: Seq<DocEntry>, k: int)
    requires
        0 <= k < es.len(),
        uris_unique(es),
    ensures
        map_of(es.remove(k)) == map_of(es).remove(es[k].uri@),
    decreases es.len(),
{
    let u = es[k].uri@;
    if k == es.len() - 1 {
        assert(es.remove(k) =~= es.drop_last());
        lemma_map_of_absent(es.drop_last(), u);
        assert(map_of(es).remove(u) =~= map_of(es.drop_last()));
    } else {
        let shorter = es.drop_last();
        assert(uris_unique(shorter));
        lemma_map_of_remove(shorter, k);
        assert(es.remove(k).drop_last() =~= shorter.remove(k));
        assert(es.remove(k).last() == es.last());
        assert(es.last().uri@ != u);
        assert((map_of(shorter).remove(u)).insert(es.last().uri@, entry_doc(es.last())) =~= (map_of(
            shorter,
        ).insert(es.last().uri@, entry_doc(es.last()))).remove(u));
    }
}

impl DocumentStore {
    /// No duplicate URIs among the entries.
    pub closed spec fn wf(&self) -> bool {
        uris_unique(self.entries@)
    }

    /// An empty store.
    pub fn new() -> (s: Self)
        ensures
            s.wf(),
            s@ == Map::<Seq<char>, StoredDoc>::empty(),
    {
        DocumentStore { entries: Vec::new() }
    }

    /// Read the current text and version of a document, if it is open.
    pub fn get(&self, uri: &String) -> (r: Option<(String, i32)>)
        requires
            self.wf(),
        ensures
            match r {
                Some(p) => self@.contains_key(uri@) && p.0@ == self@[uri@].text && p.1 as int
                    == self@[uri@].version,
                None => !self@.contains_key(uri@),
            },
    {
        let n = self.entries.len();
        let mut i: usize = 0;
        while i < n
            invariant
                0 <= i <= n,
                n == self.entries@.len(),
                self.wf(),
                forall|k: int| 0 <= k < i ==> self.entries@[k].uri@ != uri@,
            decreases n - i,
        {
            if self.entries[i].uri == *uri {
                proof {
                    lemma_map_of_present(self.entries@, i as int);
                }
                return Some((self.entries[i].text.clone(), self.entries[i].version));
            }
            i = i + 1;
        }
        proof {
            lemma_map_of_absent(self.entries@, uri@);
        }
        None
    }

    /// Drop a document; a URI that is not present is left alone.
    pub fn remove(&mut self, uri: &String)
        requires
            old(self).wf(),
        ensures
            final(self).wf(),
            final(self)@ == old(self)@.remove(uri@),
    {
        let n = self.entries.len();
        let mut i: usize = 0;
        while i < n
            invariant
                0 <= i <= n,
                n == self.entries@.len(),
                self.entries@ == old(self).entries@,
                uris_unique(self.entries@),
                forall|k: int| 0 <= k < i ==> self.entries@[k].uri@ != uri@,
            decreases n - i,
        {
            if self.entries[i].uri == *uri {
                proof {
                    lemma_map_of_present(self.entries@, i as int);
                    lemma_map_of_remove(self.entries@, i as int);
                    lemma_unique_remove(self.entries@, i as int);
                }
                self.entries.remove(i);
                return;
            }
            i = i + 1;
        }
        proof {
            lemma_map_of_absent(self.entries@, uri@);
            assert(map_of(self.entries@).remove(uri@) =~= map_of(self.entries@));
        }
    }

    /// Record the current text and version of a document, replacing any
    /// earlier entry for the same URI.
    pub fn put(&mut self, uri: String, text: String, version: i32)
        requires
            old(self).wf(),
        ensures
            final(self).wf(),
            final(self)@ == old(self)@.insert(
                uri@,
                StoredDoc { text: text@, version: version as int },
            ),
    {
        let ghost u = uri@;
        let ghost t = text@;
        self.remove(&uri);
        proof {
            assert forall|k: int| 0 <= k < self.entries@.len() implies self.entries@[k].uri@
                != u by {
                if self.entries@[k].uri@ == u {
                    lemma_map_of_present(self.entries@, k);
                }
            }
        }
        let ghost before = self.entries@;
        self.entries.push(DocEntry { uri, text, version });
        proof {
            let doc = StoredDoc { text: t, version: version as int };
            assert(self.entries@.drop_last() =~= before);
            assert(self.entries@.last().uri@ == u);
            assert(map_of(self.entries@) == map_of(before).insert(u, doc));
            assert(old(self)@.remove(u).insert(u, doc) =~= old(self)@.insert(u, doc));
            assert forall|a: int, b: int|
                0 <= a < b < self.entries@.len() implies self.entries@[a].uri@
                != self.entries@[b].uri@ by {
                if b < self.entries@.len() - 1 {
                    assert(before[a].uri@ != before[b].uri@);
                }
            }
        }
    }
}

/// Law: after a document is stored, a read of its URI sees exactly the
/// just-written text and version, until the next write or removal of that
/// URI.
pub proof fn lemma_put_then_get(
    m: Map<Seq<char>, StoredDoc>,
    uri: Seq<char>,
    text: Seq<char>,
    version: int,
)
    ensures
        m.insert(uri, (StoredDoc { text, version })).contains_key(uri),
        m.insert(uri, (StoredDoc { text, version }))[uri] == (StoredDoc { text, version }),
{
}

/// One publication to make to the editor: the diagnostics for a URI,
/// optionally tagged with the document version they were computed from.
pub struct PublishPlan {
    pub diagnostics: Vec<Diagnostic>,
    pub version: Option<i32>,
}

/// Close a document: the store keeps no entry for the URI and the editor
/// is sent an empty, unversioned diagnostic list to clear earlier findings.
pub fn on_did_close(store: &mut DocumentStore, uri: &String) -> (plan: PublishPlan)
    requires
        old(store).wf(),
    ensures
        final(store).wf(),
        final(store)@ == old(store)@.remove(uri@),
        !final(store)@.contains_key(uri@),
        plan.diagnostics@ == Seq::<Diagnostic>::empty(),
        plan.version is None,
{
    store.remove(uri);
    PublishPlan { diagnostics: Vec::new(), version: None }
}

/// Apply a change notification under full-document synchronization: the
/// last change of the batch replaces the stored text and version; an empty
/// batch changes nothing.
pub fn on_did_change(store: &mut DocumentStore, uri: String, changes: Vec<String>, version: i32) -> (applied: bool)
    requires
        old(store).wf(),
    ensures
        final(store).wf(),
        applied == (changes@.len() > 0),
        changes@.len() > 0 ==> final(store)@ == old(store)@.insert(
            uri@,
            StoredDoc { text: changes@.last()@, version: version as int },
        ),
        changes@.len() == 0 ==> final(store)@ == old(store)@,
{
    let mut changes = changes;
    match changes.pop() {
        Some(text) => {
            store.put(uri, text, version);
            true
        },
        None => false,
    }
}

/// Decide what a completed validation publishes. A publication happens
/// exactly when the document is still open at the snapshotted version; it
/// then carries that version, and the diagnostics are empty for a success
/// and the parsed response body for an error.
pub fn decide_publication(
    store: &DocumentStore,
    uri: &String,
    snapshot_version: i32,
    outcome: &ValidationResult,
) -> (r: Option<PublishPlan>)
    requires
        store.wf(),
    ensures
        (r is Some) <==> (store@.contains_key(uri@) && store@[uri@].version
            == snapshot_version as int),
        r matches Some(plan) ==> plan.version == Some(snapshot_version),
        r matches Some(plan) ==> views_of(plan.diagnostics@) == match outcome {
            ValidationResult::Success => Seq::<DiagView>::empty(),
            ValidationResult::Error(body) => parse_spec(body@),
        },
{
    match store.get(uri) {
        Some(entry) => {
            if entry.1 != snapshot_version {
                None
            } else {
                let diagnostics = match outcome {
                    ValidationResult::Success => Vec::new(),
                    ValidationResult::Error(body) => parse_jenkins_response(body.as_str()),
                };
                proof {
                    match outcome {
                        ValidationResult::Success => {
                            assert(views_of(diagnostics@) =~= Seq::<DiagView>::empty());
                        },
                        ValidationResult::Error(body) => {},
                    }
                }
                Some(PublishPlan { diagnostics, version: Some(snapshot_version) })
            }
        },
        None => None,
    }
}

} // verus!
