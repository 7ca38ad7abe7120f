//! The RAG index: the searchable documents and their metadata.
use vstd::prelude::*;

use crate::shell::opt_view;

verus! {

/// Where the index lives under the project root.
pub const RAG_INDEX_PATH: &'static str = ".novelwhale/rag-index.json";

/// One searchable document.
#[derive(Debug)]
pub struct RagDocument {
    /// Unique id, usually `<source>:<key>`.
    pub id: String,
    /// world_rule / character / event / synopsis / setting.
    pub kind: String,
    pub title: String,
    /// What is matched, and returned as it is.
    pub content: String,
    pub source_chapter: Option<u32>,
    /// Chapters may not overwrite it.
    pub immutable: bool,
    /// RFC 3339.
    pub updated_at: Option<String>,
}

pub struct DocView {
    pub id: Seq<char>,
    pub kind: Seq<char>,
    pub title: Seq<char>,
    pub content: Seq<char>,
    pub source_chapter: Option<u32>,
    pub immutable: bool,
    pub updated_at: Option<Seq<char>>,
}

impl View for RagDocument {
    type V = DocView;

    open spec fn view(&self) -> DocView {
        DocView {
            id: self.id@,
            kind: self.kind@,
            title: self.title@,
            content: self.content@,
            source_chapter: self.source_chapter,
            immutable: self.immutable,
            updated_at: opt_view(self.updated_at),
        }
    }
}

fn copy_opt(o: &Option<String>) -> (r: Option<String>)
    ensures
        r == *o,
{
    match o {
        Some(s) => Some(s.clone()),
        None => None,
    }
}

impl Clone for RagDocument {
    fn clone(&self) -> (r: Self)
        ensures
            r@ == self@,
    {
        RagDocument {
            id: self.id.clone(),
            kind: self.kind.clone(),
            title: self.title.clone(),
            content: self.content.clone(),
            source_chapter: self.source_chapter,
            immutable: self.immutable,
            updated_at: copy_opt(&self.updated_at),
        }
    }
}

/// Index metadata.
#[derive(Debug)]
pub struct RagMeta {
    /// keyword / embedding.
    pub backend: String,
    pub last_rebuilt_at: Option<String>,
    pub doc_count: usize,
}

impl Default for RagMeta {
    fn default() -> (r: Self)
        ensures
            r.backend@ == Seq::<char>::empty(),
            r.last_rebuilt_at is None,
            r.doc_count == 0,
    {
        RagMeta { backend: String::new(), last_rebuilt_at: None, doc_count: 0 }
    }
}

impl Clone for RagMeta {
    fn clone(&self) -> (r: Self)
        ensures
            r == *self,
    {
        RagMeta {
            backend: self.backend.clone(),
            last_rebuilt_at: copy_opt(&self.last_rebuilt_at),
            doc_count: self.doc_count,
        }
    }
}

/// The index file: metadata and documents.
#[derive(Debug)]
pub struct RagIndex {
    pub meta: RagMeta,
    pub documents: Vec<RagDocument>,
}

impl Default for RagIndex {
    fn default() -> (r: Self)
        ensures
            r.meta.backend@ == Seq::<char>::empty(),
            r.meta.last_rebuilt_at is None,
            r.meta.doc_count == 0,
            r.documents@.len() == 0,
    {
        RagIndex { meta: RagMeta::default(), documents: Vec::new() }
    }
}

pub open spec fn doc_views(v: Seq<RagDocument>) -> Seq<DocView> {
    Seq::new(v.len(), |i: int| v[i]@)
}

impl Clone for RagIndex {
    fn clone(&self) -> (r: Self)
        ensures
            r.meta == self.meta,
            doc_views(r.documents@) == doc_views(self.documents@),
    {
        let mut documents: Vec<RagDocument> = Vec::new();
        for i in 0..self.documents.len()
            invariant
                doc_views(documents@) == doc_views(self.documents@).take(i as int),
        {
            let d = self.documents[i].clone();
            let ghost before = documents@;
            documents.push(d);
            assert(doc_views(documents@) =~= doc_views(before).push(d@));
            assert(doc_views(documents@) =~= doc_views(self.documents@).take(i + 1));
        }
        assert(doc_views(self.documents@).take(self.documents@.len() as int) =~= doc_views(
            self.documents@,
        ));
        RagIndex { meta: self.meta.clone(), documents }
    }
}

/// Index of the first document from `i` on with id `id`.
pub open spec fn find_doc(ds: Seq<DocView>, id: Seq<char>, i: int) -> Option<int>
    decreases ds.len() - i,
{
    if i < 0 || i >= ds.len() {
        None
    } else if ds[i].id == id {
        Some(i)
    } else {
        find_doc(ds, id, i + 1)
    }
}

/// The documents after storing `d`: it replaces the first document with its
/// id, or is appended.
pub open spec fn upserted(ds: Seq<DocView>, d: DocView) -> Seq<DocView> {
    match find_doc(ds, d.id, 0) {
        Some(i) => ds.update(i, d),
        None => ds.push(d),
    }
}

/// The documents without those whose id is `id`.
pub open spec fn without_doc(ds: Seq<DocView>, id: Seq<char>) -> Seq<DocView>
    decreases ds.len(),
{
    if ds.len() == 0 {
        Seq::empty()
    } else {
        without_doc(ds.drop_last(), id) + if ds.last().id != id {
            seq![ds.last()]
        } else {
            Seq::empty()
        }
    }
}

pub open spec fn has_doc(ds: Seq<DocView>, id: Seq<char>) -> bool {
    exists|i: int| 0 <= i < ds.len() && ds[i].id == id
}

proof fn lemma_find_doc(ds: Seq<DocView>, id: Seq<char>, i: int)
    requires
        0 <= i <= ds.len(),
    ensures
        match find_doc(ds, id, i) {
            Some(k) => i <= k < ds.len() && ds[k].id == id && forall|j: int| i <= j < k ==> ds[j].id != id,
            None => forall|j: int| i <= j < ds.len() ==> ds[j].id != id,
        },
    decreases ds.len() - i,
{
    if i < ds.len() && ds[i].id != id {
        lemma_find_doc(ds, id, i + 1);
    }
}

proof fn lemma_without_doc(ds: Seq<DocView>, id: Seq<char>)
    ensures
        !has_doc(without_doc(ds, id), id),
        has_doc(ds, id) <==> without_doc(ds, id).len() != ds.len(),
        without_doc(ds, id).len() <= ds.len(),
    decreases ds.len(),
{
    if ds.len() > 0 {
        lemma_without_doc(ds.drop_last(), id);
        let a = without_doc(ds.drop_last(), id);
        let b: Seq<DocView> = if ds.last().id != id {
            seq![ds.last()]
        } else {
            Seq::empty()
        };
        assert forall|i: int| 0 <= i < (a + b).len() implies (a + b)[i].id != id by {
            if i < a.len() {
                assert((a + b)[i] == a[i]);
            } else {
                assert((a + b)[i] == b[i - a.len()]);
            }
        }
        if has_doc(ds, id) {
            let k = choose|k: int| 0 <= k < ds.len() && ds[k].id == id;
            if k < ds.len() - 1 {
                assert(ds.drop_last()[k] == ds[k]);
            }
        }
        if has_doc(ds.drop_last(), id) {
            let k = choose|k: int| 0 <= k < ds.drop_last().len() && ds.drop_last()[k].id == id;
            assert(ds[k] == ds.drop_last()[k]);
        }
    }
}

/// No two documents share an id.
pub open spec fn ids_distinct(ds: Seq<DocView>) -> bool {
    forall|i: int, j: int| 0 <= i < j < ds.len() ==> (#[trigger] ds[i]).id != (#[trigger] ds[j]).id
}

/// Storing a document into documents with distinct ids keeps the ids
/// distinct: afterwards exactly one document has the stored id, and it is the
/// stored document; the others are those that were there, in their order
/// (in place when the id was there, with the new one appended otherwise).
pub proof fn law_upsert_keeps_ids_distinct(ds: Seq<DocView>, d: DocView)
    requires
        ids_distinct(ds),
    ensures
        ids_distinct(upserted(ds, d)),
        exists|k: int|
            0 <= k < upserted(ds, d).len() && #[trigger] upserted(ds, d)[k] == d && forall|j: int|
                0 <= j < upserted(ds, d).len() && (#[trigger] upserted(ds, d)[j]).id == d.id ==> j == k,
        has_doc(ds, d.id) ==> upserted(ds, d).len() == ds.len(),
        !has_doc(ds, d.id) ==> upserted(ds, d) == ds.push(d),
        forall|j: int| 0 <= j < ds.len() && ds[j].id != d.id ==> #[trigger] upserted(ds, d)[j] == ds[j],
{
    lemma_find_doc(ds, d.id, 0);
    let r = upserted(ds, d);
    match find_doc(ds, d.id, 0) {
        Some(i) => {
            assert(r == ds.update(i, d));
            assert forall|a: int, b: int| 0 <= a < b < r.len() implies (#[trigger] r[a]).id != (
            #[trigger] r[b]).id by {
                assert(r[a].id == ds[a].id);
                assert(r[b].id == ds[b].id);
            }
            assert forall|j: int| 0 <= j < r.len() && (#[trigger] r[j]).id == d.id implies j == i by {
                if j != i {
                    assert(r[j] == ds[j]);
                    if j < i {
                        assert(ds[j].id != ds[i].id);
                    } else {
                        assert(ds[i].id != ds[j].id);
                    }
                }
            }
            assert(r[i] == d);
        },
        None => {
            assert(r == ds.push(d));
            assert(!has_doc(ds, d.id));
            let n = ds.len() as int;
            assert forall|a: int, b: int| 0 <= a < b < r.len() implies (#[trigger] r[a]).id != (
            #[trigger] r[b]).id by {
                assert(r[a] == ds[a]);
                if b < n {
                    assert(r[b] == ds[b]);
                }
            }
            assert forall|j: int| 0 <= j < r.len() && (#[trigger] r[j]).id == d.id implies j == n by {
                if j < n {
                    assert(r[j] == ds[j]);
                }
            }
            assert(r[n] == d);
        },
    }
}

impl RagIndex {
    /// Stores a document, replacing the first one with the same id; ids
    /// that were distinct stay distinct.
    pub fn upsert(&mut self, doc: RagDocument)
        ensures
            doc_views(final(self).documents@) == upserted(doc_views(old(self).documents@), doc@),
            ids_distinct(doc_views(old(self).documents@)) ==> ids_distinct(
                doc_views(final(self).documents@),
            ),
            final(self).meta.doc_count == final(self).documents@.len(),
            final(self).meta.backend == old(self).meta.backend,
            final(self).meta.last_rebuilt_at == old(self).meta.last_rebuilt_at,
    {
        let ghost ds = doc_views(self.documents@);
        let ghost dv = doc@;
        let mut i: usize = 0;
        while i < self.documents.len()
            invariant
                ds == doc_views(self.documents@),
                ds == doc_views(old(self).documents@),
                self.meta == old(self).meta,
                i <= ds.len(),
                find_doc(ds, dv.id, 0) == find_doc(ds, dv.id, i as int),
                dv == doc@,
            decreases ds.len() - i,
        {
            if self.documents[i].id == doc.id {
                self.documents.set(i, doc);
                assert(doc_views(self.documents@) =~= upserted(ds, dv));
                self.meta.doc_count = self.documents.len();
                proof {
                    if ids_distinct(ds) {
                        law_upsert_keeps_ids_distinct(ds, dv);
                    }
                }
                return;
            }
            i = i + 1;
        }
        self.documents.push(doc);
        assert(doc_views(self.documents@) =~= upserted(ds, dv));
        self.meta.doc_count = self.documents.len();
        proof {
            if ids_distinct(ds) {
                law_upsert_keeps_ids_distinct(ds, dv);
            }
        }
    }

    /// Removes every document with id `id`; whether there was one.
    pub fn remove(&mut self, id: &str) -> (r: bool)
        ensures
            doc_views(final(self).documents@) == without_doc(doc_views(old(self).documents@), id@),
            r == has_doc(doc_views(old(self).documents@), id@),
            r ==> final(self).meta.doc_count == final(self).documents@.len(),
            !r ==> final(self).meta.doc_count == old(self).meta.doc_count,
            final(self).meta.backend == old(self).meta.backend,
            final(self).meta.last_rebuilt_at == old(self).meta.last_rebuilt_at,
    {
        let ghost ds = doc_views(self.documents@);
        let before = self.documents.len();
        let mut rest: Vec<RagDocument> = Vec::new();
        std::mem::swap(&mut rest, &mut self.documents);
        assert(doc_views(self.documents@) =~= without_doc(ds.take(0), id@));
        let mut i: usize = 0;
        while i < rest.len()
            invariant
                ds == doc_views(rest@),
                ds == doc_views(old(self).documents@),
                self.meta == old(self).meta,
                i <= ds.len(),
                before == ds.len(),
                doc_views(self.documents@) == without_doc(ds.take(i as int), id@),
            decreases ds.len() - i,
        {
            assert(ds.take(i + 1).drop_last() =~= ds.take(i as int));
            let ghost prev = doc_views(self.documents@);
            if !is_id(&rest[i], id) {
                let d = rest[i].clone();
                self.documents.push(d);
                assert(doc_views(self.documents@) =~= prev.push(ds[i as int]));
            }
            assert(doc_views(self.documents@) =~= without_doc(ds.take(i + 1), id@));
            i = i + 1;
        }
        assert(ds.take(i as int) =~= ds);
        proof {
            lemma_without_doc(ds, id@);
        }
        let removed = self.documents.len() != before;
        if removed {
            self.meta.doc_count = self.documents.len();
        }
        removed
    }

    /// Drops every document.
    pub fn clear(&mut self)
        ensures
            final(self).documents@.len() == 0,
            final(self).meta.doc_count == 0,
            final(self).meta.backend == old(self).meta.backend,
            final(self).meta.last_rebuilt_at == old(self).meta.last_rebuilt_at,
    {
        self.documents.clear();
        self.meta.doc_count = 0;
    }
}

fn is_id(d: &RagDocument, id: &str) -> (r: bool)
    ensures
        r == (d.id@ == id@),
{
    let a = crate::text::str_to_chars(d.id.as_str());
    crate::text::is_text(&a, id)
}

// ---------------------------------------------------------------------------
// Laws
// ---------------------------------------------------------------------------

/// After a document is stored, the first document with its id is that
/// document.
pub proof fn law_upsert_then_find(ds: Seq<DocView>, d: DocView)
    ensures
        find_doc(upserted(ds, d), d.id, 0) matches Some(i) && upserted(ds, d)[i] == d,
{
    lemma_find_doc(ds, d.id, 0);
    let u = upserted(ds, d);
    lemma_find_doc(u, d.id, 0);
    match find_doc(ds, d.id, 0) {
        Some(k) => {
            assert(u[k] == d);
            if find_doc(u, d.id, 0) != Some(k) {
                match find_doc(u, d.id, 0) {
                    Some(j) => {
                        assert(u[j] == ds[j]);
                    },
                    None => {},
                }
            }
        },
        None => {
            assert(u[ds.len() as int] == d);
            match find_doc(u, d.id, 0) {
                Some(j) => {
                    if j < ds.len() {
                        assert(u[j] == ds[j]);
                    }
                },
                None => {},
            }
        },
    }
}

/// Storing the same document twice is the same as storing it once.
pub proof fn law_upsert_idempotent(ds: Seq<DocView>, d: DocView)
    ensures
        upserted(upserted(ds, d), d) == upserted(ds, d),
{
    law_upsert_then_find(ds, d);
    let u = upserted(ds, d);
    lemma_find_doc(u, d.id, 0);
    match find_doc(u, d.id, 0) {
        Some(i) => {
            assert(u[i] == d);
            assert forall|j: int| 0 <= j < u.len() implies u.update(i, d)[j] == u[j] by {
                if j == i {
                    assert(u.update(i, d)[j] == d);
                }
            }
            assert(u.update(i, d) =~= u);
        },
        None => {},
    }
}

/// After a remove, no document has the removed id; the remove reports a
/// change exactly when there was one.
pub proof fn law_remove_leaves_none(ds: Seq<DocView>, id: Seq<char>)
    ensures
        !has_doc(without_doc(ds, id), id),
        has_doc(ds, id) <==> without_doc(ds, id).len() != ds.len(),
{
    lemma_without_doc(ds, id);
}

} // verus!
