use novel::deai::dictionary::{ClicheCategory, ClicheDictionary, ClicheEntry, ClicheHit};
use novel::deai::scoring::{
    category_totals, checked_penalty, checked_total, humanity_for_penalty, raw_penalty, score_unscaled, total_occurrences,
    ChapterAiScore,
};
use novel::deai::suggestions::build_suggestions;

fn make_hit(phrase: &str, line: u32) -> ClicheHit {
    ClicheHit {
        entry: ClicheEntry {
            phrase: phrase.into(),
            category: ClicheCategory::AbstractDescription,
            severity: 2,
            reason: "测试".into(),
            suggestion: "改".into(),
        },
        count: 1,
        first_line: Some(line),
    }
}

fn hit_with(phrase: &str, category: ClicheCategory, severity: u8, count: u32) -> ClicheHit {
    ClicheHit {
        entry: ClicheEntry {
            phrase: phrase.into(),
            category,
            severity,
            reason: String::new(),
            suggestion: String::new(),
        },
        count,
        first_line: Some(1),
    }
}

#[test]
fn scan_finds_known_cliche() {
    let d = ClicheDictionary::builtin();
    let text = "他的眼神变得深邃，心中涌起一股说不清的感觉。";
    let hits = d.scan(text);
    assert!(!hits.is_empty());
    let phrases: Vec<&str> = hits.iter().map(|h| h.entry.phrase.as_str()).collect();
    assert!(phrases.contains(&"眼神变得深邃"));
    assert!(phrases.contains(&"心中涌起一股"));
}

#[test]
fn scan_aggregates_multiple_occurrences() {
    let d = ClicheDictionary::builtin();
    let text = "他非常惊讶。\n她非常生气。\n它非常危险。\n";
    let hits = d.scan(text);
    let hit = hits.iter().find(|h| h.entry.phrase == "非常").unwrap();
    assert_eq!(hit.count, 3);
    assert_eq!(hit.first_line, Some(1));
}

#[test]
fn clean_text_scores_100() {
    // Under 3000 chars the length factor is 1: the unscaled score is the score.
    let dict = ClicheDictionary::builtin();
    let text = "林羽拔出长刀，一刀劈向黑影。刀锋破空，那黑影应声而退。";
    let score = score_unscaled(text, &dict);
    assert_eq!(score.humanity, 100);
}

#[test]
fn heavy_cliche_drops_humanity() {
    let dict = ClicheDictionary::builtin();
    let text = "他的眼神变得深邃，心中涌起一股说不清的感觉，似乎又仿佛命中注定。";
    let score = score_unscaled(text, &dict);
    assert!(score.humanity < 100);
    assert!(score.distinct_hits > 0);
}

#[test]
fn suggestions_sorted_by_line() {
    let dict = ClicheDictionary::builtin();
    let hits = vec![make_hit("仿佛", 5), make_hit("似乎", 2), make_hit("然而", 10)];
    let s = build_suggestions(&hits);
    assert_eq!(s[0].first_line, Some(2));
    assert_eq!(s[1].first_line, Some(5));
    assert_eq!(s[2].first_line, Some(10));
    let _ = dict;
}

#[test]
fn suggestions_keep_hit_fields_and_put_unknown_lines_last() {
    let mut none = make_hit("却", 1);
    none.first_line = None;
    let hits = vec![none, make_hit("然而", 3), make_hit("仿佛", 3)];
    let s = build_suggestions(&hits);
    assert_eq!(s.len(), 3);
    // equal lines keep their order; a hit without a line goes last
    assert_eq!(s[0].phrase, "然而");
    assert_eq!(s[1].phrase, "仿佛");
    assert_eq!(s[2].phrase, "却");
    assert_eq!(s[2].first_line, None);
    assert_eq!(s[0].instruction, "改");
    assert_eq!(s[0].reason, "测试");
    assert_eq!(s[0].severity, 2);
    assert_eq!(s[0].count, 1);
}

#[test]
fn builtin_dictionary_table() {
    let d = ClicheDictionary::builtin();
    let es = d.entries();
    assert_eq!(es.len(), 18);
    assert_eq!(es[0].phrase, "眼神变得深邃");
    assert_eq!(es[0].category, ClicheCategory::AbstractDescription);
    assert_eq!(es[0].severity, 3);
    assert_eq!(es[7].phrase, "却");
    assert_eq!(es[7].category, ClicheCategory::Transition);
    assert_eq!(es[17].phrase, "无比");
    assert_eq!(es[17].category, ClicheCategory::AdverbOveruse);
    assert_eq!(es[17].severity, 1);
}

#[test]
fn scan_hits_are_sorted_by_phrase_and_counted_per_line() {
    let d = ClicheDictionary::builtin();
    let text = "然而然而\n第二行没有。\n却却却";
    let hits = d.scan(text);
    let phrases: Vec<&str> = hits.iter().map(|h| h.entry.phrase.as_str()).collect();
    let mut sorted = phrases.clone();
    sorted.sort();
    assert_eq!(phrases, sorted);
    let ran = hits.iter().find(|h| h.entry.phrase == "然而").unwrap();
    assert_eq!(ran.count, 2);
    assert_eq!(ran.first_line, Some(1));
    let que = hits.iter().find(|h| h.entry.phrase == "却").unwrap();
    assert_eq!(que.count, 3);
    assert_eq!(que.first_line, Some(3));
}

#[test]
fn duplicate_entries_count_occurrences_once() {
    let mut d = ClicheDictionary::builtin();
    d.push(ClicheEntry {
        phrase: "非常".into(),
        category: ClicheCategory::AdverbOveruse,
        severity: 3,
        reason: String::new(),
        suggestion: String::new(),
    });
    let hits = d.scan("非常好\n真的非常非常好");
    let h: Vec<&ClicheHit> = hits.iter().filter(|h| h.entry.phrase == "非常").collect();
    assert_eq!(h.len(), 1);
    // the first entry is reported, and the count is the occurrences
    assert_eq!(h[0].entry.severity, 1);
    assert_eq!(h[0].count, 3);
    assert_eq!(h[0].first_line, Some(1));
}

#[test]
fn phrase_listed_twice_counts_each_occurrence_once() {
    let mut d = ClicheDictionary::builtin();
    d.push(ClicheEntry {
        phrase: "非常".into(),
        category: ClicheCategory::AdverbOveruse,
        severity: 1,
        reason: String::new(),
        suggestion: String::new(),
    });
    let hits = d.scan("他非常惊讶。");
    assert_eq!(hits.len(), 1);
    assert_eq!(hits[0].entry.phrase, "非常");
    assert_eq!(hits[0].count, 1);
}

#[test]
fn category_totals_ascend_and_add_up() {
    let dict = ClicheDictionary::builtin();
    let text = "非常然而仿佛\n我不知道，却然而。\n这一切都是命中注定，无比无比";
    let s = score_unscaled(text, &dict);
    let idx: Vec<usize> = s
        .by_category
        .iter()
        .map(|(c, _)| (0..8).position(|i| ClicheCategory::at(i) == *c).unwrap())
        .collect();
    for w in idx.windows(2) {
        assert!(w[0] < w[1]);
    }
    let sum: u32 = s.by_category.iter().map(|(_, n)| *n).sum();
    assert_eq!(sum, s.total_occurrences);
    assert_eq!(s.total_occurrences, 9);
    assert_eq!(s.by_category.len(), 5);
}

#[test]
fn empty_text_has_no_hits() {
    let d = ClicheDictionary::builtin();
    assert!(d.scan("").is_empty());
}

#[test]
fn penalty_weights_by_severity() {
    let hits = vec![
        hit_with("a", ClicheCategory::Transition, 1, 2),
        hit_with("b", ClicheCategory::AbstractDescription, 2, 1),
        hit_with("c", ClicheCategory::Transition, 3, 3),
        hit_with("d", ClicheCategory::AdverbOveruse, 7, 1),
    ];
    // 1*2 + 2*1 + 4*3 + 1*1
    assert_eq!(raw_penalty(&hits), 17);
    assert_eq!(total_occurrences(&hits), 7);
    let by = category_totals(&hits);
    assert_eq!(
        by,
        vec![
            (ClicheCategory::AbstractDescription, 1),
            (ClicheCategory::Transition, 5),
            (ClicheCategory::AdverbOveruse, 1)
        ]
    );
}

#[test]
fn humanity_is_clamped() {
    assert_eq!(humanity_for_penalty(0), 100);
    assert_eq!(humanity_for_penalty(17), 83);
    assert_eq!(humanity_for_penalty(250), 0);
    assert_eq!(humanity_for_penalty(-5), 100);
}

#[test]
fn score_from_hits_fills_every_field() {
    let hits = vec![hit_with("x", ClicheCategory::POVLeak, 2, 4)];
    let s = ChapterAiScore::from_hits(hits, 8);
    assert_eq!(s.humanity, 92);
    assert_eq!(s.distinct_hits, 1);
    assert_eq!(s.total_occurrences, 4);
    assert_eq!(s.by_category, vec![(ClicheCategory::POVLeak, 4)]);
    assert_eq!(s.hits.len(), 1);
}

#[test]
fn unscaled_score_of_known_text() {
    let dict = ClicheDictionary::builtin();
    // 眼神变得深邃 (3) + 心中涌起一股 (3): penalty 8
    let s = score_unscaled("他的眼神变得深邃，心中涌起一股暖意。", &dict);
    assert_eq!(s.humanity, 92);
    assert_eq!(s.distinct_hits, 2);
    assert_eq!(s.total_occurrences, 2);
    assert_eq!(s.by_category, vec![(ClicheCategory::AbstractDescription, 2)]);
}

#[test]
fn category_labels() {
    assert_eq!(ClicheCategory::AbstractDescription.label(), "抽象描写");
    assert_eq!(ClicheCategory::POVLeak.label(), "视角穿越");
}

#[test]
fn scanning_twice_gives_the_same_hits() {
    let d = ClicheDictionary::builtin();
    let text = "然而他却仿佛\n非常非常然而";
    let a = d.scan(text);
    let b = d.scan(text);
    assert_eq!(a.len(), b.len());
    for (x, y) in a.iter().zip(b.iter()) {
        assert_eq!(x.entry.phrase, y.entry.phrase);
        assert_eq!(x.count, y.count);
        assert_eq!(x.first_line, y.first_line);
    }
    let ran = a.iter().find(|h| h.entry.phrase == "然而").unwrap();
    assert_eq!((ran.count, ran.first_line), (2, Some(1)));
}

#[test]
fn checked_penalty_and_total() {
    let hits = vec![
        hit_with("a", ClicheCategory::Transition, 1, 2),
        hit_with("b", ClicheCategory::AbstractDescription, 3, 3),
    ];
    assert_eq!(checked_penalty(&hits), Some(14));
    assert_eq!(checked_total(&hits), Some(5));
    let big = vec![
        hit_with("a", ClicheCategory::Transition, 3, u32::MAX),
        hit_with("b", ClicheCategory::Transition, 1, 1),
    ];
    assert_eq!(checked_penalty(&big), None);
    assert_eq!(checked_total(&big), None);
}

#[test]
fn ordinary_text_fits_a_scan() {
    let d = ClicheDictionary::builtin();
    assert!(d.scan_fits("然而然而\n却"));
    assert!(d.scan_fits(""));
}
