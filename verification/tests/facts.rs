use novel::facts::{category_label, chapter_is_new, fresh_candidates, slugify, FactExtractor};
use novel::model::WorldCategory;

#[test]
fn detects_chinese_names_before_speech_verbs() {
    let text = "张三说道：“此事不妥”。李四问：“何以见得？”";
    let chars = FactExtractor::extract_characters(text);
    let names: Vec<&str> = chars.iter().map(|c| c.name.as_str()).collect();
    assert!(names.contains(&"张三"));
    assert!(names.contains(&"李四"));
}

#[test]
fn extracts_world_rules_from_setting_marker() {
    let text = "设定: 这个世界没有电。\n设定: 修士可以御剑飞行。";
    let rules = FactExtractor::extract_world_rules(text);
    assert!(rules.iter().any(|r| r.value.contains("没有电")));
    assert!(rules.iter().any(|r| r.value.contains("御剑飞行")));
    assert!(rules.iter().all(|r| !r.immutable));
}

#[test]
fn extract_handles_chinese_period() {
    let text = "这个世界没有魔法。";
    let rules = FactExtractor::extract_world_rules(text);
    assert_eq!(rules.len(), 1);
    assert!(rules[0].value.contains("没有魔法"));
}

#[test]
fn names_are_listed_once() {
    let text = "张三说：“走。”张三又说：“快走。”";
    let chars = FactExtractor::extract_characters(text);
    let n = chars.iter().filter(|c| c.name == "张三").count();
    assert_eq!(n, 1);
}

#[test]
fn text_without_speech_has_no_names() {
    assert!(FactExtractor::extract_characters("天色渐暗，山风呼啸。").is_empty());
    assert!(FactExtractor::extract("").is_empty());
}

#[test]
fn slugs() {
    assert_eq!(slugify("Hello, World!"), "hello_world");
    assert_eq!(slugify("这个世界没有魔法"), "这个世界没有魔法");
    assert_eq!(slugify("--a--b--"), "a_b");
    assert_eq!(slugify(""), "");
}

#[test]
fn category_labels_are_lower_case_ids() {
    assert_eq!(category_label(&WorldCategory::Geography), "geography");
    assert_eq!(category_label(&WorldCategory::MagicSystem), "magic");
}

#[test]
fn merge_appends_only_new_texts() {
    let existing = vec![Some("赵五".to_string()), None];
    let candidates = vec!["赵五".to_string(), "钱六".to_string(), "钱六".to_string()];
    // the second 钱六 is already there once the first is appended
    assert_eq!(fresh_candidates(&existing, &candidates), vec![1]);
    assert_eq!(fresh_candidates(&vec![], &vec![]), Vec::<usize>::new());
}

#[test]
fn extraction_chapters_are_recorded_once() {
    let existing = vec![Some(1), None, Some(3)];
    assert!(!chapter_is_new(&existing, 1));
    assert!(chapter_is_new(&existing, 2));
}

#[test]
fn extract_is_its_two_parts() {
    let text = "张三说：“走。”李四问：“去哪？”张三说：“快走。”\n设定: 这个世界没有电。\n设定: 这个世界没有电。";
    let whole = FactExtractor::extract(text);
    let chars = FactExtractor::extract_characters(text);
    let rules = FactExtractor::extract_world_rules(text);
    let a: Vec<&str> = whole.characters.iter().map(|c| c.name.as_str()).collect();
    let b: Vec<&str> = chars.iter().map(|c| c.name.as_str()).collect();
    assert_eq!(a, b);
    assert_eq!(a, vec!["张三", "李四"]);
    let x: Vec<(&str, &str)> = whole.world_rules.iter().map(|r| (r.key.as_str(), r.value.as_str())).collect();
    let y: Vec<(&str, &str)> = rules.iter().map(|r| (r.key.as_str(), r.value.as_str())).collect();
    assert_eq!(x, y);
    assert_eq!(x.len(), 1);
}

#[test]
fn extract_of_a_plain_rule_sentence() {
    let f = FactExtractor::extract("这个世界没有魔法。");
    assert!(f.characters.is_empty());
    assert_eq!(f.world_rules.len(), 1);
    assert_eq!(f.world_rules[0].value, "这个世界没有魔法");
}

#[test]
fn merging_the_same_candidates_twice_adds_nothing_more() {
    let mut existing = vec![Some("赵五".to_string()), None];
    let candidates = vec!["钱六".to_string(), "赵五".to_string(), "孙七".to_string(), "钱六".to_string()];
    let fresh = fresh_candidates(&existing, &candidates);
    assert_eq!(fresh, vec![0, 2]);
    for i in fresh {
        existing.push(Some(candidates[i].clone()));
    }
    assert!(fresh_candidates(&existing, &candidates).is_empty());
    let mut chapters = vec![Some(1u64)];
    if chapter_is_new(&chapters, 4) {
        chapters.push(Some(4));
    }
    assert!(!chapter_is_new(&chapters, 4));
    assert_eq!(chapters.iter().filter(|c| **c == Some(4)).count(), 1);
}
