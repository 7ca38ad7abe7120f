use novel::rag::indexer::RagIndexer;
use novel::synopsis::generator::{
    ChapterSynopsis, EndingState, HeuristicSynopsisGenerator, LlmSynopsisGenerator,
    Timestamp,
};
use novel::synopsis::store::{synopsis_filename, SynopsisError, SynopsisStore};

fn at(chapter_number: u32, title: &str, secs: i64) -> ChapterSynopsis {
    ChapterSynopsis {
        chapter_number,
        chapter_title: title.to_string(),
        event_chain: vec!["事件".to_string()],
        key_details: vec!["细节".to_string()],
        ending_state: EndingState {
            character_states: vec!["状态".to_string()],
            plot_point: "卡点".to_string(),
            location: "地点".to_string(),
            mood: "neutral".to_string(),
        },
        continuation_notes: vec!["续写".to_string()],
        pending_hooks: vec!["伏笔".to_string()],
        generated_at: Timestamp { secs, nanos: 0 },
    }
}

fn sample(chapter_number: u32, title: &str) -> ChapterSynopsis {
    at(chapter_number, title, 1_700_000_000)
}

#[test]
fn render_prompt_substitutes_fields() {
    let prompt = LlmSynopsisGenerator::<()>::render_prompt(5, "测试章", "内容");
    assert!(prompt.contains("第5章"));
    assert!(prompt.contains("测试章"));
    assert!(prompt.contains("内容"));
}

#[test]
fn render_prompt_leaves_no_placeholder() {
    let prompt = LlmSynopsisGenerator::<()>::render_prompt(12, "T", "C");
    assert!(!prompt.contains("{chapter_num}"));
    assert!(!prompt.contains("{chapter_title}"));
    assert!(!prompt.contains("{chapter_content}"));
    assert!(prompt.contains("第12章"));
}

#[test]
fn add_and_get_roundtrip() {
    let mut store = SynopsisStore::new();
    store.add(sample(1, "章一")).unwrap();
    let got = store.get(1).unwrap().expect("present");
    assert_eq!(got.chapter_title, "章一");
}

#[test]
fn list_returns_sorted_chapter_numbers() {
    let mut store = SynopsisStore::new();
    store.add(sample(2, "b")).unwrap();
    store.add(sample(1, "a")).unwrap();
    store.add(sample(3, "c")).unwrap();
    assert_eq!(store.list(), vec![1, 2, 3]);
}

#[test]
fn recent_returns_n_most_recent() {
    let mut store = SynopsisStore::new();
    for n in 1..=5 {
        store.add(sample(n, &format!("章{}", n))).unwrap();
    }
    let recent = store.recent(2);
    assert_eq!(recent.len(), 2);
}

#[test]
fn rejects_zero_chapter_number() {
    let mut store = SynopsisStore::new();
    let err = store.add(sample(0, "空章")).unwrap_err();
    assert!(matches!(err, SynopsisError::InvalidChapterNumber(0)));
    assert!(store.is_empty());
}

#[test]
fn add_replaces_same_chapter() {
    let mut store = SynopsisStore::new();
    store.add(sample(4, "旧")).unwrap();
    store.add(sample(4, "新")).unwrap();
    assert_eq!(store.len(), 1);
    assert_eq!(store.get(4).unwrap().unwrap().chapter_title, "新");
    assert!(store.get(5).unwrap().is_none());
}

#[test]
fn recent_is_newest_first() {
    let mut store = SynopsisStore::new();
    store.add(at(1, "a", 300)).unwrap();
    store.add(at(2, "b", 100)).unwrap();
    store.add(at(3, "c", 200)).unwrap();
    let r: Vec<u32> = store.recent(2).iter().map(|s| s.chapter_number).collect();
    assert_eq!(r, vec![1, 3]);
    assert_eq!(store.recent(10).len(), 3);
    assert!(store.recent(0).is_empty());
}

#[test]
fn synopses_are_in_chapter_order() {
    let mut store = SynopsisStore::new();
    store.add(sample(9, "i")).unwrap();
    store.add(sample(2, "b")).unwrap();
    let all: Vec<u32> = store.synopses().iter().map(|(n, _)| *n).collect();
    assert_eq!(all, vec![2, 9]);
}

#[test]
fn synopsis_file_names() {
    assert_eq!(synopsis_filename(7), "ch_007.json");
    assert_eq!(synopsis_filename(1234), "ch_1234.json");
}

#[test]
fn heuristic_synopsis_uses_first_and_last_paragraphs() {
    let g = HeuristicSynopsisGenerator;
    let s = g.generate_synopsis("第一段描述。\n第二段过渡。\n第三段收尾。", 1, "测试章");
    assert_eq!(s.chapter_number, 1);
    assert_eq!(s.chapter_title, "测试章");
    assert_eq!(s.ending_state.mood, "neutral");
    assert_eq!(s.key_details, vec!["第一段描述。".to_string(), "第三段收尾。".to_string()]);
    assert!(s.event_chain.is_empty());
}

#[test]
fn heuristic_synopsis_of_empty_chapter() {
    let g = HeuristicSynopsisGenerator;
    let s = g.generate_synopsis("   \n\n", 2, "空白章");
    assert!(s.key_details.is_empty());
    assert_eq!(s.ending_state.mood, "neutral");
}

#[test]
fn paragraphs_are_trimmed_and_non_empty() {
    let ps = HeuristicSynopsisGenerator::split_paragraphs(" 甲 \n\n乙\n  ");
    assert_eq!(ps, vec!["甲".to_string(), "乙".to_string()]);
}

#[test]
fn synopsis_documents_carry_rfc3339_time() {
    let mut store = SynopsisStore::new();
    store.add(at(3, "章三", 0)).unwrap();
    let mut indexer = RagIndexer::new();
    indexer.ingest_summaries(&store);
    let idx = indexer.finish();
    assert_eq!(idx.documents.len(), 1);
    assert_eq!(idx.documents[0].id, "synopsis:3");
    assert_eq!(idx.documents[0].kind, "synopsis");
    assert_eq!(idx.documents[0].updated_at.as_deref(), Some("1970-01-01T00:00:00+00:00"));
}
