use novel::genre::cliches::ClicheBlacklist;
use novel::genre::rules::{rules_for, RuleSeverity};
use novel::genre::templates::{ArcPhase, ArcTemplate, GenreTemplate};
use novel::model::Genre;

const ALL: [Genre; 8] = [
    Genre::Xianxia,
    Genre::Urban,
    Genre::SciFi,
    Genre::Fantasy,
    Genre::Historical,
    Genre::Romance,
    Genre::Suspense,
    Genre::Other,
];

#[test]
fn blacklist_finds_genre_specific_phrase() {
    let bl = ClicheBlacklist::for_genre(Genre::Romance);
    let text = "他有一张刀削般的脸，让女主心动的瞬间发生了。";
    let hits = bl.scan(text);
    assert!(hits.iter().any(|m| m.phrase == "刀削般的脸"));
}

#[test]
fn empty_for_other() {
    let bl = ClicheBlacklist::for_genre(Genre::Other);
    assert!(bl.entries().is_empty());
}

#[test]
fn blacklist_match_counts_and_lines() {
    let bl = ClicheBlacklist::for_genre(Genre::Romance);
    let hits = bl.scan("平静的一天。\n少女心，少女心。");
    assert_eq!(hits.len(), 1);
    assert_eq!(hits[0].phrase, "少女心");
    assert_eq!(hits[0].count, 2);
    assert_eq!(hits[0].first_line, Some(2));
}

#[test]
fn all_genres_have_rules() {
    for g in ALL {
        let _ = rules_for(g);
    }
}

#[test]
fn xianxia_rules_table() {
    let rs = rules_for(Genre::Xianxia);
    assert_eq!(rs[0].id, "realm-named-once");
    assert_eq!(rs[0].severity, RuleSeverity::Hard);
    assert_eq!(rs[0].check_hint, "境界");
    assert_eq!(rs[1].severity, RuleSeverity::Warning);
    assert_eq!(RuleSeverity::Hard.as_str(), "hard");
}

#[test]
fn phase_for_chapter_returns_correct_phase() {
    let tpl = GenreTemplate::for_genre(Genre::Xianxia);
    assert_eq!(tpl.arc.phase_for_chapter(1).unwrap().name, "开篇立人设");
    assert_eq!(tpl.arc.phase_for_chapter(20).unwrap().name, "小试牛刀");
    assert_eq!(tpl.arc.phase_for_chapter(45).unwrap().name, "卷末高潮");
}

#[test]
fn all_genres_have_template() {
    for g in ALL {
        let t = GenreTemplate::for_genre(g.clone());
        assert!(!t.key_principles.is_empty());
        assert!(t.pace.recommended_words > 0);
        assert!(t.arc.total_chapters > 0);
    }
}

#[test]
fn phase_boundaries_and_overflow() {
    let tpl = GenreTemplate::for_genre(Genre::Xianxia);
    // 50 chapters, 20/30/30/20: chapter 10 is the end of the first phase
    assert_eq!(tpl.arc.phase_for_chapter(10).unwrap().name, "开篇立人设");
    assert_eq!(tpl.arc.phase_for_chapter(11).unwrap().name, "小试牛刀");
    assert_eq!(tpl.arc.phase_for_chapter(0).unwrap().name, "开篇立人设");
    // past the arc: the last phase
    assert_eq!(tpl.arc.phase_for_chapter(500).unwrap().name, "卷末高潮");
}

#[test]
fn arc_without_phases_has_none() {
    let arc = ArcTemplate { total_chapters: 10, phases: vec![] };
    assert!(arc.phase_for_chapter(3).is_none());
    let one = ArcTemplate {
        total_chapters: 0,
        phases: vec![ArcPhase {
            name: "唯一".into(),
            goal: String::new(),
            weight_percent: 100,
            requires_hook: false,
        }],
    };
    assert_eq!(one.phase_for_chapter(7).unwrap().name, "唯一");
}

#[test]
fn template_tables() {
    let t = GenreTemplate::for_genre(Genre::Xianxia);
    assert_eq!(t.display_name, "玄幻 / 仙侠");
    assert_eq!(t.pace.recommended_words, 2200);
    assert_eq!(t.pace.min_words, 1800);
    assert_eq!(t.pace.max_words, 3000);
    assert_eq!(t.scene_mix.total(), 100);
    assert_eq!(t.arc.total_chapters, 50);
    assert_eq!(t.arc.phases.len(), 4);
    assert_eq!(t.arc.phases[0].weight_percent, 20);
    for g in ALL {
        let t = GenreTemplate::for_genre(g);
        assert_eq!(t.genre, g);
        let sum: u32 = t.arc.phases.iter().map(|p| p.weight_percent as u32).sum();
        assert_eq!(sum, 100);
    }
}
