//! Building the RAG index from the fact store and the synopses.
use vstd::prelude::*;

use super::store::{doc_views, upserted, DocView, RagDocument, RagIndex, RagMeta};
use crate::consistency::checker::{
    character_views, rule_views, FactCharacter, FactCharacterView, FactStore, FactWorldRule,
    FactWorldRuleView,
};
use crate::synopsis::generator::{rfc3339, timestamp_rfc3339, ChapterSynopsis};
use crate::synopsis::store::SynopsisStore;
use crate::agents::state::unix_now;
use crate::text::{chars_to_string, contains, decimal, matches_at, push_chars, push_decimal, push_str, str_to_chars, string_of};
use crate::tools::spec::{joined, push_joined, string_views};

verus! {

/// The documents after storing each of `new` in turn.
pub open spec fn upsert_all(ds: Seq<DocView>, new: Seq<DocView>) -> Seq<DocView>
    decreases new.len(),
{
    if new.len() == 0 {
        ds
    } else {
        upserted(upsert_all(ds, new.drop_last()), new.last())
    }
}

/// The document of a world rule.
pub open spec fn rule_doc(r: FactWorldRuleView) -> DocView {
    DocView {
        id: "rule:"@ + r.id,
        kind: "world_rule"@,
        title: "[规则]"@ + r.category,
        content: r.rule,
        source_chapter: r.source_chapter,
        immutable: r.immutable,
        updated_at: None,
    }
}

/// The document of a character; departed characters are immutable.
pub open spec fn character_doc(c: FactCharacterView) -> DocView {
    DocView {
        id: "character:"@ + c.name,
        kind: "character"@,
        title: c.name,
        content: c.name + "（"@ + (if c.status.len() == 0 {
            "状态未知"@
        } else {
            c.status
        }) + "）"@,
        source_chapter: c.chapter_introduced,
        immutable: !c.alive,
        updated_at: None,
    }
}

/// The documents of a fact store: its rules, then its characters.
pub open spec fn fact_docs(store: FactStore) -> Seq<DocView> {
    Seq::new(store.world_rules@.len(), |i: int| rule_doc(rule_views(store.world_rules@)[i]))
        + Seq::new(
        store.characters@.len(),
        |i: int| character_doc(character_views(store.characters@)[i]),
    )
}

/// Each item of a list occurs in the list joined by any separator, between
/// some text before it and some after.
proof fn lemma_joined_has_item(items: Seq<Seq<char>>, sep: Seq<char>, i: int)
    requires
        0 <= i < items.len(),
    ensures
        exists|a: Seq<char>, b: Seq<char>| joined(items, sep) == a + items[i] + b,
    decreases items.len(),
{
    let e = Seq::<char>::empty();
    if items.len() == 1 {
        assert(joined(items, sep) == e + items[i] + e);
    } else if i == items.len() - 1 {
        let a = joined(items.drop_last(), sep) + sep;
        assert(joined(items, sep) == a + items[i] + e);
    } else {
        lemma_joined_has_item(items.drop_last(), sep, i);
        let (a, b) = choose|a: Seq<char>, b: Seq<char>|
            joined(items.drop_last(), sep) == a + items.drop_last()[i] + b;
        let b2 = b + sep + items.last();
        assert(joined(items, sep) =~= a + items[i] + b2);
    }
}

/// A text occurs in any text it is a part of.
proof fn lemma_part_contained(a: Seq<char>, n: Seq<char>, b: Seq<char>)
    ensures
        contains(a + n + b, n),
{
    assert((a + n + b).subrange(a.len() as int, (a.len() + n.len()) as int) =~= n);
    assert(matches_at(a + n + b, n, a.len() as int));
}

/// The indexed text of a synopsis ends with its pending hooks, joined by
/// `；` under the heading `待回收伏笔：`, so that every pending hook occurs in
/// it and a search for a hook's words can find the synopsis.
pub proof fn law_synopsis_doc_keeps_hooks(s: ChapterSynopsis)
    ensures
        exists|pre: Seq<char>|
            synopsis_doc(s).content == pre + "\n待回收伏笔："@ + joined(string_views(s.pending_hooks@), "；"@),
        forall|i: int|
            0 <= i < s.pending_hooks@.len() ==> contains(synopsis_doc(s).content, #[trigger] s.pending_hooks@[i]@),
{
    let hooks = string_views(s.pending_hooks@);
    let c = synopsis_doc(s).content;
    let tail = "\n待回收伏笔："@ + joined(hooks, "；"@);
    let pre = s.chapter_title@ + "\n事件链："@ + joined(string_views(s.event_chain@), " → "@) + "\n关键细节："@
        + joined(string_views(s.key_details@), "；"@) + "\n续写要点："@ + joined(
        string_views(s.continuation_notes@),
        "；"@,
    );
    assert(c =~= pre + tail);
    assert forall|i: int| 0 <= i < s.pending_hooks@.len() implies contains(c, #[trigger] s.pending_hooks@[i]@) by {
        assert(hooks[i] == s.pending_hooks@[i]@);
        lemma_joined_has_item(hooks, "；"@, i);
        let (a, b) = choose|a: Seq<char>, b: Seq<char>| joined(hooks, "；"@) == a + hooks[i] + b;
        assert(c =~= (pre + "\n待回收伏笔："@ + a) + hooks[i] + b);
        lemma_part_contained(pre + "\n待回收伏笔："@ + a, hooks[i], b);
    }
}

/// The document of a chapter synopsis.
pub open spec fn synopsis_doc(s: ChapterSynopsis) -> DocView {
    DocView {
        id: "synopsis:"@ + decimal(s.chapter_number as nat),
        kind: "synopsis"@,
        title: "第 "@ + decimal(s.chapter_number as nat) + " 章 "@ + s.chapter_title@,
        content: s.chapter_title@ + "\n事件链："@ + joined(string_views(s.event_chain@), " → "@)
            + "\n关键细节："@ + joined(string_views(s.key_details@), "；"@) + "\n续写要点："@ + joined(
            string_views(s.continuation_notes@),
            "；"@,
        ) + "\n待回收伏笔："@ + joined(string_views(s.pending_hooks@), "；"@),
        source_chapter: Some(s.chapter_number),
        immutable: false,
        updated_at: Some(rfc3339(s.generated_at.secs, s.generated_at.nanos)),
    }
}

pub open spec fn synopsis_docs(v: Seq<ChapterSynopsis>) -> Seq<DocView> {
    Seq::new(v.len(), |i: int| synopsis_doc(v[i]))
}

/// Builds the RAG index.
pub struct RagIndexer {
    pub index: RagIndex,
}

fn rule_document(r: &FactWorldRule) -> (d: RagDocument)
    ensures
        d@ == rule_doc(r@),
{
    let mut id: Vec<char> = Vec::new();
    push_str(&mut id, "rule:");
    push_str(&mut id, r.id.as_str());
    let mut title: Vec<char> = Vec::new();
    push_str(&mut title, "[规则]");
    push_str(&mut title, r.category.as_str());
    let d = RagDocument {
        id: chars_to_string(&id),
        kind: string_of("world_rule"),
        title: chars_to_string(&title),
        content: r.rule.clone(),
        source_chapter: r.source_chapter,
        immutable: r.immutable,
        updated_at: None,
    };
    assert(d@ =~= rule_doc(r@));
    d
}

fn character_document(c: &FactCharacter) -> (d: RagDocument)
    ensures
        d@ == character_doc(c@),
{
    let mut id: Vec<char> = Vec::new();
    push_str(&mut id, "character:");
    push_str(&mut id, c.name.as_str());
    let mut content: Vec<char> = Vec::new();
    push_str(&mut content, c.name.as_str());
    push_str(&mut content, "（");
    let st = str_to_chars(c.status.as_str());
    if st.len() == 0 {
        push_str(&mut content, "状态未知");
    } else {
        push_chars(&mut content, &st);
    }
    push_str(&mut content, "）");
    let d = RagDocument {
        id: chars_to_string(&id),
        kind: string_of("character"),
        title: c.name.clone(),
        content: chars_to_string(&content),
        source_chapter: c.chapter_introduced,
        immutable: !c.alive,
        updated_at: None,
    };
    assert(d@ =~= character_doc(c@));
    d
}

fn synopsis_document(s: &ChapterSynopsis) -> (d: RagDocument)
    ensures
        d@ == synopsis_doc(*s),
{
    let mut id: Vec<char> = Vec::new();
    push_str(&mut id, "synopsis:");
    push_decimal(&mut id, s.chapter_number as u64);
    let mut title: Vec<char> = Vec::new();
    push_str(&mut title, "第 ");
    push_decimal(&mut title, s.chapter_number as u64);
    push_str(&mut title, " 章 ");
    push_str(&mut title, s.chapter_title.as_str());
    let mut content: Vec<char> = Vec::new();
    push_str(&mut content, s.chapter_title.as_str());
    push_str(&mut content, "\n事件链：");
    push_joined(&mut content, &s.event_chain, " → ");
    push_str(&mut content, "\n关键细节：");
    push_joined(&mut content, &s.key_details, "；");
    push_str(&mut content, "\n续写要点：");
    push_joined(&mut content, &s.continuation_notes, "；");
    push_str(&mut content, "\n待回收伏笔：");
    push_joined(&mut content, &s.pending_hooks, "；");
    let d = RagDocument {
        id: chars_to_string(&id),
        kind: string_of("synopsis"),
        title: chars_to_string(&title),
        content: chars_to_string(&content),
        source_chapter: Some(s.chapter_number),
        immutable: false,
        updated_at: Some(timestamp_rfc3339(s.generated_at)),
    };
    assert(d@ =~= synopsis_doc(*s));
    d
}

/// The rebuild stamp `epoch:<seconds>`.
pub fn now_iso8601() -> (r: String)
    ensures
        exists|secs: u64| r@ == "epoch:"@ + decimal(secs as nat),
{
    let (secs, _) = unix_now();
    let mut v: Vec<char> = Vec::new();
    push_str(&mut v, "epoch:");
    push_decimal(&mut v, secs);
    assert(v@ =~= "epoch:"@ + decimal(secs as nat));
    chars_to_string(&v)
}

impl RagIndexer {
    pub fn new() -> (r: Self)
        ensures
            r.index.documents@.len() == 0,
            r.index.meta.doc_count == 0,
            r.index.meta.backend@ == Seq::<char>::empty(),
            r.index.meta.last_rebuilt_at is None,
    {
        RagIndexer { index: RagIndex::default() }
    }

    /// Stores one document per world rule, then one per character.
    pub fn ingest_facts(&mut self, store: &FactStore)
        ensures
            doc_views(final(self).index.documents@) == upsert_all(
                doc_views(old(self).index.documents@),
                fact_docs(*store),
            ),
            final(self).index.meta.backend == old(self).index.meta.backend,
            final(self).index.meta.last_rebuilt_at == old(self).index.meta.last_rebuilt_at,
            store.world_rules@.len() + store.characters@.len() > 0 ==> final(self).index.meta.doc_count == final(self).index.documents@.len(),
            store.world_rules@.len() + store.characters@.len() == 0 ==> final(self).index.meta.doc_count == old(self).index.meta.doc_count,
    {
        let ghost start = doc_views(self.index.documents@);
        let ghost docs = fact_docs(*store);
        let nr = store.world_rules.len();
        assert(upsert_all(start, docs.take(0)) == start);
        for i in 0..nr
            invariant
                docs == fact_docs(*store),
                nr == store.world_rules@.len(),
                doc_views(self.index.documents@) == upsert_all(start, docs.take(i as int)),
                self.index.meta.backend == old(self).index.meta.backend,
                self.index.meta.last_rebuilt_at == old(self).index.meta.last_rebuilt_at,
                i > 0 ==> self.index.meta.doc_count == self.index.documents@.len(),
                i == 0 ==> self.index.meta.doc_count == old(self).index.meta.doc_count,
        {
            let d = rule_document(&store.world_rules[i]);
            assert(docs[i as int] == d@);
            assert(docs.take(i + 1).drop_last() =~= docs.take(i as int));
            self.index.upsert(d);
        }
        let nc = store.characters.len();
        for j in 0..nc
            invariant
                docs == fact_docs(*store),
                nr == store.world_rules@.len(),
                nc == store.characters@.len(),
                doc_views(self.index.documents@) == upsert_all(start, docs.take(nr + j)),
                self.index.meta.backend == old(self).index.meta.backend,
                self.index.meta.last_rebuilt_at == old(self).index.meta.last_rebuilt_at,
                nr + j > 0 ==> self.index.meta.doc_count == self.index.documents@.len(),
                nr + j == 0 ==> self.index.meta.doc_count == old(self).index.meta.doc_count,
        {
            let d = character_document(&store.characters[j]);
            assert(docs[nr + j] == d@);
            assert(docs.take(nr + j + 1).drop_last() =~= docs.take(nr + j));
            self.index.upsert(d);
        }
        assert(docs.take(nr + nc) =~= docs);
    }

    /// Stores one document per synopsis, in chapter order.
    pub fn ingest_summaries(&mut self, summaries: &SynopsisStore)
        ensures
            doc_views(final(self).index.documents@) == upsert_all(
                doc_views(old(self).index.documents@),
                synopsis_docs(summaries.entries()),
            ),
            final(self).index.meta.backend == old(self).index.meta.backend,
            final(self).index.meta.last_rebuilt_at == old(self).index.meta.last_rebuilt_at,
            summaries.entries().len() > 0 ==> final(self).index.meta.doc_count == final(self).index.documents@.len(),
            summaries.entries().len() == 0 ==> final(self).index.meta.doc_count == old(self).index.meta.doc_count,
    {
        let ghost start = doc_views(self.index.documents@);
        let ghost docs = synopsis_docs(summaries.entries());
        let all = summaries.synopses();
        assert(upsert_all(start, docs.take(0)) == start);
        for i in 0..all.len()
            invariant
                docs == synopsis_docs(summaries.entries()),
                all@.len() == summaries.entries().len(),
                forall|k: int| 0 <= k < all@.len() ==> *(#[trigger] all@[k]).1 == summaries.entries()[k],
                doc_views(self.index.documents@) == upsert_all(start, docs.take(i as int)),
                self.index.meta.backend == old(self).index.meta.backend,
                self.index.meta.last_rebuilt_at == old(self).index.meta.last_rebuilt_at,
                i > 0 ==> self.index.meta.doc_count == self.index.documents@.len(),
                i == 0 ==> self.index.meta.doc_count == old(self).index.meta.doc_count,
        {
            let d = synopsis_document(all[i].1);
            assert(docs[i as int] == d@);
            assert(docs.take(i + 1).drop_last() =~= docs.take(i as int));
            self.index.upsert(d);
        }
        assert(docs.take(all@.len() as int) =~= docs);
    }

    /// The index with its metadata set: keyword backend, the rebuild stamp
    /// of now, and the document count.
    pub fn finish(self) -> (r: RagIndex)
        ensures
            doc_views(r.documents@) == doc_views(self.index.documents@),
            r.meta.backend@ == "keyword"@,
            r.meta.last_rebuilt_at matches Some(t) && exists|secs: u64| t@ == "epoch:"@ + decimal(
                secs as nat,
            ),
            r.meta.doc_count == r.documents@.len(),
    {
        let mut index = self.index;
        let n = index.documents.len();
        index.meta = RagMeta { backend: string_of("keyword"), last_rebuilt_at: Some(now_iso8601()), doc_count: n };
        index
    }
}

impl Default for RagIndexer {
    fn default() -> (r: Self)
        ensures
            r.index.documents@.len() == 0,
            r.index.meta.doc_count == 0,
    {
        RagIndexer::new()
    }
}

} // verus!
