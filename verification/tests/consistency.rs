use novel::consistency::checker::{ConsistencyChecker, FactCharacter, FactStore, FactWorldRule};
use novel::consistency::rules::{ConsistencyIssue, ConsistencyReport, IssueCategory, IssueStats};

fn store_with_rules(rules: Vec<FactWorldRule>) -> FactStore {
    let mut s = FactStore::default();
    s.world_rules = rules;
    s
}

fn no_magic() -> FactWorldRule {
    FactWorldRule {
        id: "no_magic".into(),
        rule: "这个世界没有魔法".into(),
        category: "other".into(),
        source_chapter: Some(1),
        immutable: true,
    }
}

fn issue(category: IssueCategory, severity: u8) -> ConsistencyIssue {
    ConsistencyIssue {
        category,
        severity,
        source: "s".into(),
        matched_text: "m".into(),
        explanation: String::new(),
    }
}

#[test]
fn issue_stats_match_issues() {
    let _issues = vec![
        ConsistencyIssue {
            category: IssueCategory::WorldRuleViolation,
            severity: 2,
            source: "a".into(),
            matched_text: "x".into(),
            explanation: "".into(),
        },
        ConsistencyIssue {
            category: IssueCategory::DeadCharacterRevival,
            severity: 1,
            source: "b".into(),
            matched_text: "y".into(),
            explanation: "".into(),
        },
    ];
    let stats = IssueStats {
        errors: 1,
        warnings: 1,
        hints: 0,
    };
    assert_eq!(stats.errors, 1);
    assert_eq!(stats.warnings, 1);
}

#[test]
fn stats_count_by_severity() {
    let issues = vec![
        issue(IssueCategory::WorldRuleViolation, 2),
        issue(IssueCategory::DeadCharacterRevival, 1),
        issue(IssueCategory::QuantityContradiction, 0),
        issue(IssueCategory::AmbiguousName, 1),
        issue(IssueCategory::AmbiguousName, 5),
    ];
    let s = IssueStats::from_issues(&issues);
    assert_eq!(s.errors, 1);
    assert_eq!(s.warnings, 2);
    assert_eq!(s.hints, 1);
}

#[test]
fn world_rule_violation_is_an_issue() {
    let store = store_with_rules(vec![no_magic()]);
    let issues = ConsistencyChecker::new().check_issues(2, "林羽念动咒语，魔法从指尖涌出。", &store);
    let v = issues.iter().find(|i| i.category == IssueCategory::WorldRuleViolation);
    assert!(v.is_some());
    let v = v.unwrap();
    assert_eq!(v.severity, 2);
    assert_eq!(v.source, "rule:no_magic");
    assert_eq!(v.matched_text, "魔法");
}

#[test]
fn content_obeying_rule_has_no_issue() {
    let store = store_with_rules(vec![no_magic()]);
    let issues = ConsistencyChecker::new().check_issues(2, "林羽取出长刀，与敌人近身搏斗。", &store);
    assert!(issues.is_empty());
}

#[test]
fn restated_rule_is_not_a_violation() {
    let store = store_with_rules(vec![no_magic()]);
    let issues = ConsistencyChecker::new().check_issues(
        2,
        "老村长说：「这个山谷里没有魔法，那些外乡人别再提了。」",
        &store,
    );
    assert!(issues.is_empty(), "{:?}", issues);
}

#[test]
fn dead_character_revival_is_an_issue() {
    let mut store = FactStore::default();
    store.characters.push(FactCharacter {
        name: "王五".into(),
        status: "dead".into(),
        chapter_introduced: Some(1),
        alive: false,
        last_appearance: Some(3),
    });
    let issues = ConsistencyChecker::new().check_issues(5, "王五从城门走出，与张三打招呼。", &store);
    let issue = issues
        .iter()
        .find(|i| i.category == IssueCategory::DeadCharacterRevival)
        .unwrap();
    // chapter 5 is more than one past chapter 3: an error
    assert_eq!(issue.severity, 2);
    assert_eq!(issue.source, "character:王五");
    assert!(issue.explanation.contains("第 3 章"));
    assert!(issue.explanation.contains("（位于第 1 行）"));
}

#[test]
fn revival_right_after_departure_is_a_warning() {
    let mut store = FactStore::default();
    store.characters.push(FactCharacter {
        name: "王五".into(),
        status: "dead".into(),
        chapter_introduced: Some(1),
        alive: false,
        last_appearance: Some(3),
    });
    let issues = ConsistencyChecker::new().check_issues(4, "王五回来了。", &store);
    assert_eq!(issues.len(), 1);
    assert_eq!(issues[0].severity, 1);
}

#[test]
fn character_before_introduction_is_not_checked() {
    let mut store = FactStore::default();
    store.characters.push(FactCharacter {
        name: "王五".into(),
        status: "dead".into(),
        chapter_introduced: Some(6),
        alive: false,
        last_appearance: None,
    });
    let issues = ConsistencyChecker::new().check_issues(5, "王五回来了。", &store);
    assert!(issues.is_empty());
}

#[test]
fn repeated_quantity_phrases_are_flagged() {
    let store = FactStore::default();
    let content = "3人走进山谷。\n3人又走了一段路。\n3人终于到了终点。\n";
    let issues = ConsistencyChecker::new().check_issues(1, content, &store);
    let issue = issues
        .iter()
        .find(|i| i.category == IssueCategory::QuantityContradiction);
    assert!(issue.is_some());
    assert_eq!(issue.unwrap().severity, 0);
}

#[test]
fn empty_content_has_no_issue() {
    let store = store_with_rules(vec![no_magic()]);
    let issues = ConsistencyChecker::new().check_issues(1, "", &store);
    assert!(issues.is_empty());
}

#[test]
fn shared_names_are_ambiguous() {
    let mut store = FactStore::default();
    for _ in 0..2 {
        store.characters.push(FactCharacter {
            name: "李四".into(),
            status: "alive".into(),
            chapter_introduced: Some(1),
            alive: true,
            last_appearance: None,
        });
    }
    let issues = ConsistencyChecker::new().check_issues(2, "李四笑了。", &store);
    let issue = issues
        .iter()
        .find(|i| i.category == IssueCategory::AmbiguousName)
        .unwrap();
    assert_eq!(issue.severity, 1);
    assert!(issue.explanation.contains("2 条同名「李四」"));
}

#[test]
fn issue_category_labels() {
    assert_eq!(IssueCategory::WorldRuleViolation.label(), "世界规则违反");
    assert_eq!(IssueCategory::QuantityContradiction.label(), "数字/量词矛盾");
}

fn departed(name: &str, last: u32) -> FactCharacter {
    FactCharacter {
        name: name.into(),
        status: "dead".into(),
        chapter_introduced: Some(1),
        alive: false,
        last_appearance: Some(last),
    }
}

#[test]
fn issues_come_most_severe_first() {
    let mut store = FactStore::default();
    store.characters.push(departed("甲乙", 4));
    store.characters.push(departed("丙丁", 1));
    let issues = ConsistencyChecker::new().check_issues(5, "甲乙和丙丁", &store);
    assert_eq!(issues.len(), 2);
    assert_eq!(issues[0].severity, 2);
    assert_eq!(issues[0].matched_text, "丙丁");
    assert_eq!(issues[1].severity, 1);
    assert_eq!(issues[1].matched_text, "甲乙");
    let stats = IssueStats::from_issues(&issues);
    assert_eq!((stats.errors, stats.warnings, stats.hints), (1, 1, 0));
    assert_eq!((stats.errors + stats.warnings + stats.hints) as usize, issues.len());
}

#[test]
fn equal_severities_keep_check_order() {
    let mut store = store_with_rules(vec![no_magic()]);
    store.characters.push(departed("甲乙", 4));
    store.characters.push(departed("丙丁", 1));
    store.characters.push(departed("戊己", 2));
    let content = "3人走进山谷。\n3人又走了一段路。\n3人终于到了终点，甲乙和丙丁、戊己施展魔法。\n";
    let issues = ConsistencyChecker::new().check_issues(5, content, &store);
    let order: Vec<(u8, IssueCategory, String)> = issues
        .iter()
        .map(|i| (i.severity, i.category, i.matched_text.clone()))
        .collect();
    for w in order.windows(2) {
        assert!(w[0].0 >= w[1].0);
    }
    let errors: Vec<&(u8, IssueCategory, String)> = order.iter().filter(|o| o.0 == 2).collect();
    assert_eq!(errors[0].1, IssueCategory::WorldRuleViolation);
    let revived: Vec<&str> = errors
        .iter()
        .filter(|o| o.1 == IssueCategory::DeadCharacterRevival)
        .map(|o| o.2.as_str())
        .collect();
    assert_eq!(revived, vec!["丙丁", "戊己"]);
    assert_eq!(order.last().unwrap().1, IssueCategory::QuantityContradiction);
}

#[test]
fn report_counts_its_issues() {
    let mut store = FactStore::default();
    store.characters.push(departed("甲乙", 4));
    store.characters.push(departed("丙丁", 1));
    let issues = ConsistencyChecker::new().check_issues(5, "甲乙和丙丁", &store);
    let r = ConsistencyReport::assemble(5, issues, 83);
    assert_eq!(r.chapter_number, 5);
    assert_eq!(r.score, 83);
    assert_eq!(r.issues.len(), 2);
    assert_eq!((r.stats.errors, r.stats.warnings, r.stats.hints), (1, 1, 0));
}
