use novel::consistency::checker::{FactCharacter, FactStore, FactWorldRule};
use novel::rag::highlights::extract_highlights;
use novel::rag::indexer::RagIndexer;
use novel::rag::retriever::{
    candidates, check_query, document_frequency, matched_terms, term_frequency, tokenize,
    KeywordRetriever, RetrievalBackend, RetrieverError,
};
use novel::rag::store::{RagDocument, RagIndex};

fn sample_doc(id: &str) -> RagDocument {
    RagDocument {
        id: id.into(),
        kind: "world_rule".into(),
        title: "测试".into(),
        content: "这个世界没有魔法".into(),
        source_chapter: Some(1),
        immutable: true,
        updated_at: None,
    }
}

fn doc(id: &str, kind: &str, title: &str, content: &str) -> RagDocument {
    RagDocument {
        id: id.into(),
        kind: kind.into(),
        title: title.into(),
        content: content.into(),
        source_chapter: Some(1),
        immutable: true,
        updated_at: None,
    }
}

fn strings(v: &[&str]) -> Vec<String> {
    v.iter().map(|s| s.to_string()).collect()
}

#[test]
fn upsert_replaces_existing() {
    let mut idx = RagIndex::default();
    idx.upsert(sample_doc("rule:no_magic"));
    idx.upsert(sample_doc("rule:no_magic"));
    assert_eq!(idx.documents.len(), 1);
}

#[test]
fn remove_returns_true_when_present() {
    let mut idx = RagIndex::default();
    idx.upsert(sample_doc("a"));
    idx.upsert(sample_doc("b"));
    assert!(idx.remove("a"));
    assert_eq!(idx.documents.len(), 1);
}

#[test]
fn upsert_keeps_position_and_replaces_content() {
    let mut idx = RagIndex::default();
    idx.upsert(sample_doc("a"));
    idx.upsert(sample_doc("b"));
    let mut newer = sample_doc("a");
    newer.content = "新的内容".into();
    idx.upsert(newer);
    assert_eq!(idx.documents.len(), 2);
    assert_eq!(idx.documents[0].id, "a");
    assert_eq!(idx.documents[0].content, "新的内容");
    assert_eq!(idx.meta.doc_count, 2);
}

#[test]
fn remove_missing_is_false_and_clear_empties() {
    let mut idx = RagIndex::default();
    idx.upsert(sample_doc("a"));
    assert!(!idx.remove("zzz"));
    assert_eq!(idx.documents.len(), 1);
    idx.clear();
    assert!(idx.documents.is_empty());
    assert_eq!(idx.meta.doc_count, 0);
}

#[test]
fn indexer_builds_rule_and_character_documents() {
    let mut store = FactStore::default();
    store.world_rules.push(FactWorldRule {
        id: "no_magic".into(),
        rule: "这个世界没有魔法".into(),
        category: "other".into(),
        source_chapter: Some(1),
        immutable: true,
    });
    store.characters.push(FactCharacter {
        name: "王五".into(),
        status: "dead".into(),
        chapter_introduced: Some(1),
        alive: false,
        last_appearance: Some(3),
    });
    let mut indexer = RagIndexer::new();
    indexer.ingest_facts(&store);
    let idx = indexer.finish();
    assert_eq!(idx.documents.len(), 2);
    assert_eq!(idx.documents[0].id, "rule:no_magic");
    assert_eq!(idx.documents[0].kind, "world_rule");
    assert_eq!(idx.documents[1].id, "character:王五");
    assert!(idx.documents[1].immutable);
    assert_eq!(idx.meta.backend, "keyword");
    assert_eq!(idx.meta.doc_count, 2);
    assert!(idx.meta.last_rebuilt_at.as_ref().unwrap().starts_with("epoch:"));
}

#[test]
fn tokenize_words_chars_and_bigrams() {
    assert_eq!(tokenize("Hello World"), strings(&["hello", "world"]));
    assert_eq!(tokenize("林羽a1"), strings(&["林", "羽", "a1", "林羽"]));
    assert_eq!(tokenize("魔法，"), strings(&["魔", "法", "，", "魔法"]));
    assert!(tokenize("   ").is_empty());
}

#[test]
fn blank_query_is_refused() {
    assert_eq!(check_query(""), Err(RetrieverError::EmptyQuery));
    assert_eq!(check_query(" \n\t"), Err(RetrieverError::EmptyQuery));
    assert_eq!(check_query("林羽"), Ok(()));
}

#[test]
fn candidates_follow_kind_limit() {
    let mut idx = RagIndex::default();
    idx.upsert(doc("rule:magic", "world_rule", "魔法设定", "世界上没有魔法。"));
    idx.upsert(doc("char:ling", "character", "林羽", "林羽会剑术。"));
    let all = candidates(&idx, &None);
    assert_eq!(all.len(), 2);
    assert_eq!(all[1].0, 1);
    assert_eq!(all[1].1, tokenize("林羽 林羽会剑术。"));
    let rules = candidates(&idx, &Some(vec!["world_rule".to_string()]));
    assert_eq!(rules.len(), 1);
    assert_eq!(rules[0].0, 0);
    assert!(candidates(&idx, &Some(vec![])).is_empty());
}

#[test]
fn frequencies_and_matches() {
    let toks = strings(&["林", "羽", "林", "林羽"]);
    assert_eq!(term_frequency(&toks, "林"), 2);
    assert_eq!(term_frequency(&toks, "魔"), 0);
    let docs = vec![(0usize, toks.clone()), (1usize, strings(&["魔", "法"]))];
    assert_eq!(document_frequency(&docs, "林"), 1);
    assert_eq!(document_frequency(&docs, "剑"), 0);
    let q = strings(&["林", "学", "羽", "林", "林羽"]);
    assert_eq!(matched_terms(&q, &toks), strings(&["林", "羽", "林"]));
}

#[test]
fn highlights_take_windows_around_first_occurrence() {
    // ASCII: byte and char offsets agree
    let content = "abcdefghijklmnopqrstuvwxyz0123456789";
    let h = extract_highlights(content, &strings(&["xyz"]), 80);
    // x is at 23: window 3..46 clipped to the text
    assert_eq!(h, vec![content[3..].to_string()]);
    // a second token inside the same window is skipped
    let h2 = extract_highlights(content, &strings(&["xyz", "0"]), 80);
    assert_eq!(h2.len(), 1);
    // cut to max_len with an ellipsis
    let h3 = extract_highlights(content, &strings(&["a"]), 5);
    assert_eq!(h3, vec!["abcde…".to_string()]);
    // missing tokens give nothing
    assert!(extract_highlights(content, &strings(&["!"]), 80).is_empty());
}

#[test]
fn highlights_stop_at_three() {
    let content = format!("{}{}{}{}", "a".repeat(60), "b".repeat(60), "c".repeat(60), "d".repeat(60));
    let h = extract_highlights(&content, &strings(&["a", "b", "c", "d"]), 10);
    assert_eq!(h.len(), 3);
}

#[test]
fn highlights_use_byte_offsets_as_char_positions() {
    // 林羽 takes 6 bytes: the match of 羽 (byte 3) gives a window starting at char 0
    let h = extract_highlights("林羽出身山村", &strings(&["山村"]), 80);
    // 山 is at char 4, byte 12: window chars 0..min(12+2+20, 6)
    assert_eq!(h, vec!["林羽出身山村".to_string()]);
}

#[test]
fn retriever_owns_its_index() {
    let mut idx = RagIndex::default();
    idx.upsert(sample_doc("a"));
    let r = KeywordRetriever::new(idx);
    assert_eq!(r.index().documents.len(), 1);
    let r = r.with_index(RagIndex::default());
    assert!(r.into_index().documents.is_empty());
    assert!(matches!(KeywordRetriever::from_loaded(None), Err(RetrieverError::NoIndex)));
    assert!(KeywordRetriever::from_loaded(Some(RagIndex::default())).is_ok());
    assert_eq!(RetrievalBackend::Keyword.label(), "keyword");
}

#[test]
fn upserts_keep_ids_distinct() {
    let mut idx = RagIndex::default();
    for id in ["a", "b", "a", "c", "b", "a"] {
        idx.upsert(sample_doc(id));
    }
    let ids: Vec<&str> = idx.documents.iter().map(|d| d.id.as_str()).collect();
    assert_eq!(ids, vec!["a", "b", "c"]);
    assert_eq!(idx.meta.doc_count, 3);
    let mut replaced = sample_doc("b");
    replaced.title = "换过".into();
    idx.upsert(replaced);
    let bs: Vec<&RagDocument> = idx.documents.iter().filter(|d| d.id == "b").collect();
    assert_eq!(bs.len(), 1);
    assert_eq!(bs[0].title, "换过");
    assert_eq!(idx.documents[1].id, "b");
}
