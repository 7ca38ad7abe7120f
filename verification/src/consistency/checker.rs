//! The consistency checker: the fact store it reads, and the four rule-based
//! checks of a chapter against it.
use vstd::prelude::*;

use crate::consistency::probes::{
    extract_quantity_phrase, is_negated, is_negated_context, is_negating_word, law_negating_word_negates,
    window_before, lemma_probe_nouns_nonempty,
    quantity_phrase, rule_probe_nouns, rule_probes,
};
use crate::consistency::rules::{
    by_severity, issue_views, law_by_severity, with_severity, law_severity_counts_sum, lemma_valid_concat,
    severities_valid, severity_count, sort_by_severity, sorted_by_severity, ConsistencyIssue,
    IssueCategory, IssueView,
};
use crate::tally::{is_tally_of, tally};
use crate::text::{
    chars_to_string, contains, contains_chars, decimal, line_index, line_number_of, lines,
    positions_from, push_chars, push_decimal, push_str, split_lines, str_to_chars, string_of, trim, trim_chars, views,
};

verus! {

/// A character as the fact store records it.
#[derive(Clone, Debug)]
pub struct FactCharacter {
    pub name: String,
    pub status: String,
    pub chapter_introduced: Option<u32>,
    /// `false` once the character is dead or has left the story for good.
    pub alive: bool,
    /// Chapter of death / departure.
    pub last_appearance: Option<u32>,
}

/// A world rule as the fact store records it.
#[derive(Clone, Debug)]
pub struct FactWorldRule {
    pub id: String,
    pub rule: String,
    pub category: String,
    pub source_chapter: Option<u32>,
    pub immutable: bool,
}

/// The fact store (`.novelwhale/facts.json`).
#[derive(Clone, Debug)]
pub struct FactStore {
    pub characters: Vec<FactCharacter>,
    pub events: Vec<serde_json::Value>,
    pub world_rules: Vec<FactWorldRule>,
    pub last_modified: Option<String>,
    pub extraction_chapters: Vec<u32>,
}

impl Default for FactStore {
    fn default() -> (r: Self)
        ensures
            r.characters@.len() == 0,
            r.events@.len() == 0,
            r.world_rules@.len() == 0,
            r.last_modified is None,
            r.extraction_chapters@.len() == 0,
    {
        FactStore {
            characters: Vec::new(),
            events: Vec::new(),
            world_rules: Vec::new(),
            last_modified: None,
            extraction_chapters: Vec::new(),
        }
    }
}

/// The plain content of a [`FactCharacter`].
pub struct FactCharacterView {
    pub name: Seq<char>,
    pub status: Seq<char>,
    pub chapter_introduced: Option<u32>,
    pub alive: bool,
    pub last_appearance: Option<u32>,
}

impl View for FactCharacter {
    type V = FactCharacterView;

    open spec fn view(&self) -> FactCharacterView {
        FactCharacterView {
            name: self.name@,
            status: self.status@,
            chapter_introduced: self.chapter_introduced,
            alive: self.alive,
            last_appearance: self.last_appearance,
        }
    }
}

/// The plain content of a [`FactWorldRule`].
pub struct FactWorldRuleView {
    pub id: Seq<char>,
    pub rule: Seq<char>,
    pub category: Seq<char>,
    pub source_chapter: Option<u32>,
    pub immutable: bool,
}

impl View for FactWorldRule {
    type V = FactWorldRuleView;

    open spec fn view(&self) -> FactWorldRuleView {
        FactWorldRuleView {
            id: self.id@,
            rule: self.rule@,
            category: self.category@,
            source_chapter: self.source_chapter,
            immutable: self.immutable,
        }
    }
}

pub open spec fn character_views(v: Seq<FactCharacter>) -> Seq<FactCharacterView> {
    Seq::new(v.len(), |i: int| v[i]@)
}

pub open spec fn rule_views(v: Seq<FactWorldRule>) -> Seq<FactWorldRuleView> {
    Seq::new(v.len(), |i: int| v[i]@)
}

/// The names of the characters, in store order.
pub open spec fn names_of(cs: Seq<FactCharacterView>) -> Seq<Seq<char>> {
    Seq::new(cs.len(), |i: int| cs[i].name)
}

// ---------------------------------------------------------------------------
// The texts of an issue
// ---------------------------------------------------------------------------

pub open spec fn unwrap_or(o: Option<u32>, d: u32) -> u32 {
    match o {
        Some(n) => n,
        None => d,
    }
}

/// A chapter number, or `?` when unknown.
pub open spec fn opt_num(o: Option<u32>) -> Seq<char> {
    match o {
        Some(n) => decimal(n as nat),
        None => "?"@,
    }
}

/// The 1-based line of the first mention of `p`, as a `u32`.
pub open spec fn line_no(text: Seq<char>, p: Seq<char>) -> Option<u32> {
    match line_number_of(text, p) {
        Some(n) => Some(n as u32),
        None => None,
    }
}

/// "(on line n)" for a known line, nothing otherwise.
pub open spec fn suffix_of(line: Option<u32>) -> Seq<char> {
    match line {
        Some(n) => "（位于第 "@ + decimal(n as nat) + " 行）"@,
        None => Seq::empty(),
    }
}

/// The line suffix of an issue about `p`.
pub open spec fn line_suffix(text: Seq<char>, p: Seq<char>) -> Seq<char> {
    suffix_of(line_no(text, p))
}

// ---------------------------------------------------------------------------
// The four checks, as specifications
// ---------------------------------------------------------------------------

/// The issue of a chapter that mentions `noun`, which the locked rule `r`
/// forbids.
pub open spec fn rule_violation(content: Seq<char>, r: FactWorldRuleView, noun: Seq<char>) -> IssueView {
    IssueView {
        category: IssueCategory::WorldRuleViolation,
        severity: 2,
        source: "rule:"@ + r.id,
        matched_text: noun,
        explanation: "章节提到了「"@ + noun + "」，与不可变规则「"@ + r.rule + "」冲突（分类 "@
            + r.category + "，来自第 "@ + opt_num(r.source_chapter) + " 章）"@ + line_suffix(
            content,
            noun,
        ),
    }
}

/// The violations of rule `r` among its forbidden `nouns`: each noun the
/// chapter mentions outside a negated context.
pub open spec fn noun_issues(content: Seq<char>, r: FactWorldRuleView, nouns: Seq<Seq<char>>) -> Seq<
    IssueView,
>
    decreases nouns.len(),
{
    if nouns.len() == 0 {
        Seq::empty()
    } else {
        noun_issues(content, r, nouns.drop_last()) + if contains(content, nouns.last()) && !is_negated(
            content,
            nouns.last(),
        ) {
            seq![rule_violation(content, r, nouns.last())]
        } else {
            Seq::empty()
        }
    }
}

/// The world-rule issues: rule by rule, only locked (immutable) rules.
pub open spec fn world_rule_issues(content: Seq<char>, rs: Seq<FactWorldRuleView>) -> Seq<IssueView>
    decreases rs.len(),
{
    if rs.len() == 0 {
        Seq::empty()
    } else {
        world_rule_issues(content, rs.drop_last()) + if rs.last().immutable {
            noun_issues(content, rs.last(), rule_probe_nouns(rs.last().rule))
        } else {
            Seq::empty()
        }
    }
}

/// A departed character `c` is checked in this chapter: it comes after the
/// chapter the character was introduced in, and the text names it.
pub open spec fn is_revival(chapter: u32, content: Seq<char>, c: FactCharacterView) -> bool {
    !c.alive && chapter > unwrap_or(c.chapter_introduced, 0) && contains(content, c.name)
}

/// Severity of a revival: an error more than one chapter after the last
/// appearance (or, without one, the introduction), else a warning.
pub open spec fn revival_severity(chapter: u32, c: FactCharacterView) -> u8 {
    if chapter > unwrap_or(c.last_appearance, unwrap_or(c.chapter_introduced, 0)) + 1 {
        2
    } else {
        1
    }
}

pub open spec fn revival_issue(chapter: u32, content: Seq<char>, c: FactCharacterView) -> IssueView {
    IssueView {
        category: IssueCategory::DeadCharacterRevival,
        severity: revival_severity(chapter, c),
        source: "character:"@ + c.name,
        matched_text: c.name,
        explanation: "角色「"@ + c.name + "」已在第 "@ + opt_num(c.last_appearance)
            + " 章后标记为退场，但本章再次出现"@ + line_suffix(content, c.name),
    }
}

/// The revival issues, character by character.
pub open spec fn dead_character_issues(chapter: u32, content: Seq<char>, cs: Seq<FactCharacterView>) -> Seq<
    IssueView,
>
    decreases cs.len(),
{
    if cs.len() == 0 {
        Seq::empty()
    } else {
        dead_character_issues(chapter, content, cs.drop_last()) + if is_revival(
            chapter,
            content,
            cs.last(),
        ) {
            seq![revival_issue(chapter, content, cs.last())]
        } else {
            Seq::empty()
        }
    }
}

/// The last chapter of a checked revival stays below `u32::MAX`, so that one
/// more than it is a `u32`.
pub open spec fn revivals_in_range(chapter: u32, content: Seq<char>, cs: Seq<FactCharacterView>) -> bool {
    forall|i: int|
        0 <= i < cs.len() && #[trigger] is_revival(chapter, content, cs[i]) ==> unwrap_or(
            cs[i].last_appearance,
            unwrap_or(cs[i].chapter_introduced, 0),
        ) < u32::MAX
}

pub open spec fn alias_issue(content: Seq<char>, name: Seq<char>, count: nat) -> IssueView {
    IssueView {
        category: IssueCategory::AmbiguousName,
        severity: 1,
        source: "character:"@ + name,
        matched_text: name,
        explanation: "事实库中存在 "@ + decimal(count) + " 条同名「"@ + name + "」的记录，请确认是否需要消歧"@
            + line_suffix(content, name),
    }
}

/// The ambiguous-name issues from the name tally `t`: one per name held by
/// more than one record, in name order.
pub open spec fn alias_issues(content: Seq<char>, t: Seq<(Vec<char>, usize)>) -> Seq<IssueView>
    decreases t.len(),
{
    if t.len() == 0 {
        Seq::empty()
    } else {
        alias_issues(content, t.drop_last()) + if t.last().1 > 1 {
            seq![alias_issue(content, t.last().0@, t.last().1 as nat)]
        } else {
            Seq::empty()
        }
    }
}

/// The quantity phrase of one line, trimmed, when it has one.
pub open spec fn line_phrase(l: Seq<char>) -> Seq<Seq<char>> {
    let t = trim(l);
    if t.len() == 0 {
        Seq::empty()
    } else {
        match quantity_phrase(t) {
            Some(p) => seq![p],
            None => Seq::empty(),
        }
    }
}

/// The quantity phrases of the lines, in order.
pub open spec fn quantity_keys(ls: Seq<Seq<char>>) -> Seq<Seq<char>>
    decreases ls.len(),
{
    if ls.len() == 0 {
        Seq::empty()
    } else {
        quantity_keys(ls.drop_last()) + line_phrase(ls.last())
    }
}

pub open spec fn quantity_issue(content: Seq<char>, phrase: Seq<char>, count: nat) -> IssueView {
    IssueView {
        category: IssueCategory::QuantityContradiction,
        severity: 0,
        source: "phrase-frequency"@,
        matched_text: phrase,
        explanation: "同一章内出现 "@ + decimal(count) + " 次「"@ + phrase + "」，建议核对是否需要变化"@
            + line_suffix(content, phrase),
    }
}

/// The repeated-phrase issues from the phrase tally `t`: one per phrase on
/// three or more lines, in phrase order.
pub open spec fn quantity_issues(content: Seq<char>, t: Seq<(Vec<char>, usize)>) -> Seq<IssueView>
    decreases t.len(),
{
    if t.len() == 0 {
        Seq::empty()
    } else {
        quantity_issues(content, t.drop_last()) + if t.last().1 >= 3 {
            seq![quantity_issue(content, t.last().0@, t.last().1 as nat)]
        } else {
            Seq::empty()
        }
    }
}

// ---------------------------------------------------------------------------
// Building the texts
// ---------------------------------------------------------------------------

fn push_opt_num(out: &mut Vec<char>, o: Option<u32>)
    ensures
        final(out)@ == old(out)@ + opt_num(o),
{
    match o {
        Some(n) => push_decimal(out, n as u64),
        None => push_str(out, "?"),
    }
}

fn push_line_suffix(out: &mut Vec<char>, line: Option<u32>)
    ensures
        final(out)@ == old(out)@ + suffix_of(line),
{
    match line {
        Some(n) => {
            let ghost start = out@;
            push_str(out, "（位于第 ");
            push_decimal(out, n as u64);
            push_str(out, " 行）");
            assert(out@ =~= start + suffix_of(line));
        },
        None => {
            assert(out@ =~= old(out)@ + suffix_of(line));
        },
    }
}

/// `prefix` followed by `s`, as a string.
fn prefixed(prefix: &str, s: &Vec<char>) -> (r: String)
    ensures
        r@ == prefix@ + s@,
{
    let mut v: Vec<char> = Vec::new();
    push_str(&mut v, prefix);
    push_chars(&mut v, s);
    assert(v@ =~= prefix@ + s@);
    chars_to_string(&v)
}

fn rule_violation_issue(content: &Vec<char>, rule: &FactWorldRule, noun: &Vec<char>) -> (r:
    ConsistencyIssue)
    ensures
        r@ == rule_violation(content@, rule@, noun@),
{
    let mut e: Vec<char> = Vec::new();
    push_str(&mut e, "章节提到了「");
    push_chars(&mut e, noun);
    push_str(&mut e, "」，与不可变规则「");
    push_str(&mut e, rule.rule.as_str());
    push_str(&mut e, "」冲突（分类 ");
    push_str(&mut e, rule.category.as_str());
    push_str(&mut e, "，来自第 ");
    push_opt_num(&mut e, rule.source_chapter);
    push_str(&mut e, " 章）");
    let line = line_index(content, noun);
    push_line_suffix(&mut e, line);
    let id = str_to_chars(rule.id.as_str());
    let r = ConsistencyIssue {
        category: IssueCategory::WorldRuleViolation,
        severity: 2,
        source: prefixed("rule:", &id),
        matched_text: chars_to_string(noun),
        explanation: chars_to_string(&e),
    };
    assert(r@.explanation =~= rule_violation(content@, rule@, noun@).explanation);
    r
}

fn revival_issue_exec(chapter: u32, content: &Vec<char>, c: &FactCharacter, severity: u8) -> (r:
    ConsistencyIssue)
    requires
        severity == revival_severity(chapter, c@),
    ensures
        r@ == revival_issue(chapter, content@, c@),
{
    let name = str_to_chars(c.name.as_str());
    let mut e: Vec<char> = Vec::new();
    push_str(&mut e, "角色「");
    push_chars(&mut e, &name);
    push_str(&mut e, "」已在第 ");
    push_opt_num(&mut e, c.last_appearance);
    push_str(&mut e, " 章后标记为退场，但本章再次出现");
    let line = line_index(content, &name);
    push_line_suffix(&mut e, line);
    let r = ConsistencyIssue {
        category: IssueCategory::DeadCharacterRevival,
        severity,
        source: prefixed("character:", &name),
        matched_text: chars_to_string(&name),
        explanation: chars_to_string(&e),
    };
    assert(r@.explanation =~= revival_issue(chapter, content@, c@).explanation);
    r
}

fn alias_issue_exec(content: &Vec<char>, name: &Vec<char>, count: usize) -> (r: ConsistencyIssue)
    ensures
        r@ == alias_issue(content@, name@, count as nat),
{
    let mut e: Vec<char> = Vec::new();
    push_str(&mut e, "事实库中存在 ");
    push_decimal(&mut e, count as u64);
    push_str(&mut e, " 条同名「");
    push_chars(&mut e, name);
    push_str(&mut e, "」的记录，请确认是否需要消歧");
    let line = line_index(content, name);
    push_line_suffix(&mut e, line);
    let r = ConsistencyIssue {
        category: IssueCategory::AmbiguousName,
        severity: 1,
        source: prefixed("character:", name),
        matched_text: chars_to_string(name),
        explanation: chars_to_string(&e),
    };
    assert(r@.explanation =~= alias_issue(content@, name@, count as nat).explanation);
    r
}

fn quantity_issue_exec(content: &Vec<char>, phrase: &Vec<char>, count: usize) -> (r: ConsistencyIssue)
    ensures
        r@ == quantity_issue(content@, phrase@, count as nat),
{
    let mut e: Vec<char> = Vec::new();
    push_str(&mut e, "同一章内出现 ");
    push_decimal(&mut e, count as u64);
    push_str(&mut e, " 次「");
    push_chars(&mut e, phrase);
    push_str(&mut e, "」，建议核对是否需要变化");
    let line = line_index(content, phrase);
    push_line_suffix(&mut e, line);
    let r = ConsistencyIssue {
        category: IssueCategory::QuantityContradiction,
        severity: 0,
        source: string_of("phrase-frequency"),
        matched_text: chars_to_string(phrase),
        explanation: chars_to_string(&e),
    };
    assert(r@.explanation =~= quantity_issue(content@, phrase@, count as nat).explanation);
    r
}

/// Appends one issue.
fn push_issue(issues: &mut Vec<ConsistencyIssue>, i: ConsistencyIssue)
    ensures
        issue_views(final(issues)@) == issue_views(old(issues)@).push(i@),
{
    let ghost v = i@;
    issues.push(i);
    assert(issue_views(issues@) =~= issue_views(old(issues)@).push(v));
}

// ---------------------------------------------------------------------------
// The checks
// ---------------------------------------------------------------------------

fn check_world_rules(content: &Vec<char>, store: &FactStore, issues: &mut Vec<ConsistencyIssue>)
    ensures
        issue_views(final(issues)@) == issue_views(old(issues)@) + world_rule_issues(
            content@,
            rule_views(store.world_rules@),
        ),
{
    let ghost start = issue_views(issues@);
    let ghost rs = rule_views(store.world_rules@);
    assert(start + world_rule_issues(content@, rs.take(0)) =~= start);
    for k in 0..store.world_rules.len()
        invariant
            rs == rule_views(store.world_rules@),
            issue_views(issues@) == start + world_rule_issues(content@, rs.take(k as int)),
    {
        let rule = &store.world_rules[k];
        assert(rs.take(k + 1).drop_last() =~= rs.take(k as int));
        assert(rs.take(k + 1).last() == rule@);
        let ghost before = issue_views(issues@);
        if rule.immutable {
            let rule_chars = str_to_chars(rule.rule.as_str());
            let nouns = rule_probes(&rule_chars);
            let ghost nv = views(nouns@);
            proof {
                lemma_probe_nouns_nonempty(rule@.rule);
            }
            assert(before + noun_issues(content@, rule@, nv.take(0)) =~= before);
            for j in 0..nouns.len()
                invariant
                    nv == views(nouns@),
                    nv == rule_probe_nouns(rule@.rule),
                    forall|t: int| 0 <= t < nv.len() ==> (#[trigger] nv[t]).len() > 0,
                    issue_views(issues@) == before + noun_issues(content@, rule@, nv.take(j as int)),
            {
                let noun = &nouns[j];
                assert(nv.take(j + 1).drop_last() =~= nv.take(j as int));
                assert(nv.take(j + 1).last() == noun@);
                assert(noun@ == nv[j as int]);
                let ghost mid = issue_views(issues@);
                if contains_chars(content, noun) && !is_negated_context(content, noun) {
                    let issue = rule_violation_issue(content, rule, noun);
                    push_issue(issues, issue);
                    assert(issue_views(issues@) =~= before + noun_issues(
                        content@,
                        rule@,
                        nv.take(j + 1),
                    ));
                } else {
                    assert(issue_views(issues@) =~= before + noun_issues(
                        content@,
                        rule@,
                        nv.take(j + 1),
                    ));
                }
            }
            assert(nv.take(nv.len() as int) =~= nv);
            assert(issue_views(issues@) =~= start + world_rule_issues(content@, rs.take(k + 1)));
        } else {
            assert(issue_views(issues@) =~= start + world_rule_issues(content@, rs.take(k + 1)));
        }
    }
    assert(rs.take(rs.len() as int) =~= rs);
}

fn check_dead_characters(
    chapter_number: u32,
    content: &Vec<char>,
    store: &FactStore,
    issues: &mut Vec<ConsistencyIssue>,
)
    requires
        revivals_in_range(chapter_number, content@, character_views(store.characters@)),
    ensures
        issue_views(final(issues)@) == issue_views(old(issues)@) + dead_character_issues(
            chapter_number,
            content@,
            character_views(store.characters@),
        ),
{
    let ghost start = issue_views(issues@);
    let ghost cs = character_views(store.characters@);
    assert(start + dead_character_issues(chapter_number, content@, cs.take(0)) =~= start);
    for k in 0..store.characters.len()
        invariant
            cs == character_views(store.characters@),
            revivals_in_range(chapter_number, content@, cs),
            issue_views(issues@) == start + dead_character_issues(
                chapter_number,
                content@,
                cs.take(k as int),
            ),
    {
        let c = &store.characters[k];
        assert(cs.take(k + 1).drop_last() =~= cs.take(k as int));
        assert(cs.take(k + 1).last() == c@);
        assert(cs[k as int] == c@);
        let intro = match c.chapter_introduced {
            Some(n) => n,
            None => 0,
        };
        if !c.alive && chapter_number > intro {
            let name = str_to_chars(c.name.as_str());
            if contains_chars(content, &name) {
                assert(is_revival(chapter_number, content@, cs[k as int]));
                let last = match c.last_appearance {
                    Some(n) => n,
                    None => intro,
                };
                let severity: u8 = if chapter_number > last + 1 {
                    2
                } else {
                    1
                };
                let issue = revival_issue_exec(chapter_number, content, c, severity);
                push_issue(issues, issue);
            }
        }
        assert(issue_views(issues@) =~= start + dead_character_issues(
            chapter_number,
            content@,
            cs.take(k + 1),
        ));
    }
    assert(cs.take(cs.len() as int) =~= cs);
}

fn check_character_aliases(content: &Vec<char>, store: &FactStore, issues: &mut Vec<ConsistencyIssue>)
    ensures
        exists|t: Seq<(Vec<char>, usize)>|
            #[trigger] is_tally_of(names_of(character_views(store.characters@)), t) && issue_views(
                final(issues)@,
            ) == issue_views(old(issues)@) + alias_issues(content@, t),
{
    let ghost start = issue_views(issues@);
    let ghost ns = names_of(character_views(store.characters@));
    let mut names: Vec<Vec<char>> = Vec::new();
    for k in 0..store.characters.len()
        invariant
            ns == names_of(character_views(store.characters@)),
            views(names@) == ns.take(k as int),
    {
        let name = str_to_chars(store.characters[k].name.as_str());
        assert(ns[k as int] == name@);
        let ghost before = names@;
        names.push(name);
        assert(names@ == before.push(name));
        assert(views(names@) =~= views(before).push(ns[k as int]));
        assert(views(names@) =~= ns.take(k + 1));
    }
    assert(ns.take(ns.len() as int) =~= ns);
    let t = tally(&names);
    assert(start + alias_issues(content@, t@.take(0)) =~= start);
    for j in 0..t.len()
        invariant
            issue_views(issues@) == start + alias_issues(content@, t@.take(j as int)),
    {
        assert(t@.take(j + 1).drop_last() =~= t@.take(j as int));
        let count = t[j].1;
        if count > 1 {
            let issue = alias_issue_exec(content, &t[j].0, count);
            push_issue(issues, issue);
        }
        assert(issue_views(issues@) =~= start + alias_issues(content@, t@.take(j + 1)));
    }
    assert(t@.take(t@.len() as int) =~= t@);
}

fn check_quantity_contradictions(content: &Vec<char>, issues: &mut Vec<ConsistencyIssue>)
    ensures
        exists|t: Seq<(Vec<char>, usize)>|
            #[trigger] is_tally_of(quantity_keys(lines(content@)), t) && issue_views(final(issues)@)
                == issue_views(old(issues)@) + quantity_issues(content@, t),
{
    let ghost start = issue_views(issues@);
    let ls = split_lines(content);
    let ghost lv = views(ls@);
    let mut keys: Vec<Vec<char>> = Vec::new();
    assert(quantity_keys(lv.take(0)) =~= Seq::<Seq<char>>::empty());
    for k in 0..ls.len()
        invariant
            lv == views(ls@),
            views(keys@) == quantity_keys(lv.take(k as int)),
    {
        assert(lv.take(k + 1).drop_last() =~= lv.take(k as int));
        assert(lv.take(k + 1).last() == ls@[k as int]@);
        let line = trim_chars(&ls[k]);
        if line.len() > 0 {
            match extract_quantity_phrase(&line) {
                Some(p) => {
                    let ghost pv = p@;
                    keys.push(p);
                    assert(views(keys@) =~= quantity_keys(lv.take(k + 1)));
                },
                None => {
                    assert(views(keys@) =~= quantity_keys(lv.take(k + 1)));
                },
            }
        } else {
            assert(views(keys@) =~= quantity_keys(lv.take(k + 1)));
        }
    }
    assert(lv.take(lv.len() as int) =~= lv);
    let t = tally(&keys);
    assert(start + quantity_issues(content@, t@.take(0)) =~= start);
    for j in 0..t.len()
        invariant
            issue_views(issues@) == start + quantity_issues(content@, t@.take(j as int)),
    {
        assert(t@.take(j + 1).drop_last() =~= t@.take(j as int));
        let count = t[j].1;
        if count >= 3 {
            let issue = quantity_issue_exec(content, &t[j].0, count);
            push_issue(issues, issue);
        }
        assert(issue_views(issues@) =~= start + quantity_issues(content@, t@.take(j + 1)));
    }
    assert(t@.take(t@.len() as int) =~= t@);
}

/// The issues of one chapter, in the order the checks run: world rules,
/// departed characters, ambiguous names (name tally `ta`), repeated quantity
/// phrases (phrase tally `tq`).
pub open spec fn chapter_issues(
    chapter: u32,
    content: Seq<char>,
    store: FactStore,
    ta: Seq<(Vec<char>, usize)>,
    tq: Seq<(Vec<char>, usize)>,
) -> Seq<IssueView> {
    world_rule_issues(content, rule_views(store.world_rules@)) + dead_character_issues(
        chapter,
        content,
        character_views(store.characters@),
    ) + alias_issues(content, ta) + quantity_issues(content, tq)
}

proof fn lemma_noun_issues_valid(content: Seq<char>, r: FactWorldRuleView, nouns: Seq<Seq<char>>)
    ensures
        severities_valid(noun_issues(content, r, nouns)),
    decreases nouns.len(),
{
    if nouns.len() > 0 {
        lemma_noun_issues_valid(content, r, nouns.drop_last());
        let tail: Seq<IssueView> = if contains(content, nouns.last()) && !is_negated(content, nouns.last()) {
            seq![rule_violation(content, r, nouns.last())]
        } else {
            Seq::empty()
        };
        assert(severities_valid(tail));
        lemma_valid_concat(noun_issues(content, r, nouns.drop_last()), tail);
    }
}

proof fn lemma_world_rule_issues_valid(content: Seq<char>, rs: Seq<FactWorldRuleView>)
    ensures
        severities_valid(world_rule_issues(content, rs)),
    decreases rs.len(),
{
    if rs.len() > 0 {
        lemma_world_rule_issues_valid(content, rs.drop_last());
        lemma_noun_issues_valid(content, rs.last(), rule_probe_nouns(rs.last().rule));
        let tail: Seq<IssueView> = if rs.last().immutable {
            noun_issues(content, rs.last(), rule_probe_nouns(rs.last().rule))
        } else {
            Seq::empty()
        };
        assert(severities_valid(tail));
        lemma_valid_concat(world_rule_issues(content, rs.drop_last()), tail);
    }
}

proof fn lemma_dead_character_issues_valid(chapter: u32, content: Seq<char>, cs: Seq<FactCharacterView>)
    ensures
        severities_valid(dead_character_issues(chapter, content, cs)),
    decreases cs.len(),
{
    if cs.len() > 0 {
        lemma_dead_character_issues_valid(chapter, content, cs.drop_last());
        let tail: Seq<IssueView> = if is_revival(chapter, content, cs.last()) {
            seq![revival_issue(chapter, content, cs.last())]
        } else {
            Seq::empty()
        };
        assert(severities_valid(tail));
        lemma_valid_concat(dead_character_issues(chapter, content, cs.drop_last()), tail);
    }
}

proof fn lemma_alias_issues_valid(content: Seq<char>, t: Seq<(Vec<char>, usize)>)
    ensures
        severities_valid(alias_issues(content, t)),
    decreases t.len(),
{
    if t.len() > 0 {
        lemma_alias_issues_valid(content, t.drop_last());
        let tail: Seq<IssueView> = if t.last().1 > 1 {
            seq![alias_issue(content, t.last().0@, t.last().1 as nat)]
        } else {
            Seq::empty()
        };
        assert(severities_valid(tail));
        lemma_valid_concat(alias_issues(content, t.drop_last()), tail);
    }
}

proof fn lemma_quantity_issues_valid(content: Seq<char>, t: Seq<(Vec<char>, usize)>)
    ensures
        severities_valid(quantity_issues(content, t)),
    decreases t.len(),
{
    if t.len() > 0 {
        lemma_quantity_issues_valid(content, t.drop_last());
        let tail: Seq<IssueView> = if t.last().1 >= 3 {
            seq![quantity_issue(content, t.last().0@, t.last().1 as nat)]
        } else {
            Seq::empty()
        };
        assert(severities_valid(tail));
        lemma_valid_concat(quantity_issues(content, t.drop_last()), tail);
    }
}

/// Every issue a check raises is a hint (0), a warning (1) or an error (2).
pub proof fn lemma_chapter_issues_valid(
    chapter: u32,
    content: Seq<char>,
    store: FactStore,
    ta: Seq<(Vec<char>, usize)>,
    tq: Seq<(Vec<char>, usize)>,
)
    ensures
        severities_valid(chapter_issues(chapter, content, store, ta, tq)),
{
    let a = world_rule_issues(content, rule_views(store.world_rules@));
    let b = dead_character_issues(chapter, content, character_views(store.characters@));
    let c = alias_issues(content, ta);
    let d = quantity_issues(content, tq);
    lemma_world_rule_issues_valid(content, rule_views(store.world_rules@));
    lemma_dead_character_issues_valid(chapter, content, character_views(store.characters@));
    lemma_alias_issues_valid(content, ta);
    lemma_quantity_issues_valid(content, tq);
    lemma_valid_concat(a, b);
    lemma_valid_concat(a + b, c);
    lemma_valid_concat(a + b + c, d);
}

/// The issues of a chapter, as the checker reports them (sorted by
/// severity): every issue is a hint, a warning or an error; none comes
/// before a more severe one; no issue is lost or added, so the errors,
/// warnings and hints counted in them are those the checks found, and
/// together they are all the issues.
pub proof fn law_chapter_issues_by_severity(
    chapter: u32,
    content: Seq<char>,
    store: FactStore,
    ta: Seq<(Vec<char>, usize)>,
    tq: Seq<(Vec<char>, usize)>,
)
    ensures
        ({
            let found = chapter_issues(chapter, content, store, ta, tq);
            let v = by_severity(found);
            &&& severities_valid(v)
            &&& sorted_by_severity(v)
            &&& v.len() == found.len()
            &&& severity_count(v, 2) == severity_count(found, 2)
            &&& severity_count(v, 1) == severity_count(found, 1)
            &&& severity_count(v, 0) == severity_count(found, 0)
            &&& severity_count(v, 2) + severity_count(v, 1) + severity_count(v, 0) == v.len()
        }),
{
    let found = chapter_issues(chapter, content, store, ta, tq);
    lemma_chapter_issues_valid(chapter, content, store, ta, tq);
    law_by_severity(found);
    law_severity_counts_sum(by_severity(found));
}

/// Every issue a rule raises names a noun the chapter mentions outside any
/// negated context.
proof fn lemma_noun_issues_unnegated(content: Seq<char>, r: FactWorldRuleView, nouns: Seq<Seq<char>>)
    ensures
        forall|i: int|
            0 <= i < noun_issues(content, r, nouns).len() ==> !is_negated(
                content,
                (#[trigger] noun_issues(content, r, nouns)[i]).matched_text,
            ),
    decreases nouns.len(),
{
    if nouns.len() > 0 {
        lemma_noun_issues_unnegated(content, r, nouns.drop_last());
        let a = noun_issues(content, r, nouns.drop_last());
        let n = nouns.last();
        let tail: Seq<IssueView> = if contains(content, n) && !is_negated(content, n) {
            seq![rule_violation(content, r, n)]
        } else {
            Seq::empty()
        };
        assert(noun_issues(content, r, nouns) == a + tail);
        assert forall|i: int| 0 <= i < (a + tail).len() implies !is_negated(content, #[trigger] (a + tail)[i].matched_text) by {
            if i < a.len() {
                assert((a + tail)[i] == a[i]);
            } else {
                assert((a + tail)[i] == tail[i - a.len()]);
            }
        }
    }
}

proof fn lemma_world_rule_issues_unnegated(content: Seq<char>, rs: Seq<FactWorldRuleView>)
    ensures
        forall|i: int|
            0 <= i < world_rule_issues(content, rs).len() ==> !is_negated(
                content,
                (#[trigger] world_rule_issues(content, rs)[i]).matched_text,
            ),
    decreases rs.len(),
{
    if rs.len() > 0 {
        lemma_world_rule_issues_unnegated(content, rs.drop_last());
        lemma_noun_issues_unnegated(content, rs.last(), rule_probe_nouns(rs.last().rule));
        let a = world_rule_issues(content, rs.drop_last());
        let tail: Seq<IssueView> = if rs.last().immutable {
            noun_issues(content, rs.last(), rule_probe_nouns(rs.last().rule))
        } else {
            Seq::empty()
        };
        assert(world_rule_issues(content, rs) == a + tail);
        assert forall|i: int| 0 <= i < (a + tail).len() implies !is_negated(content, #[trigger] (a + tail)[i].matched_text) by {
            if i < a.len() {
                assert((a + tail)[i] == a[i]);
            } else {
                assert((a + tail)[i] == tail[i - a.len()]);
            }
        }
    }
}

/// A mention of a forbidden noun with one of the negating words (没有, 并无,
/// 并非, 并未, 并不, 不存, 不具) in the 8 chars before it excuses the noun:
/// no world-rule issue of the chapter names it.
pub proof fn law_negated_mention_excused(
    content: Seq<char>,
    rs: Seq<FactWorldRuleView>,
    noun: Seq<char>,
    p: int,
    word: Seq<char>,
)
    requires
        positions_from(content, noun, 0).contains(p),
        is_negating_word(word),
        contains(window_before(content, p), word),
    ensures
        forall|i: int|
            0 <= i < world_rule_issues(content, rs).len() ==> (#[trigger] world_rule_issues(content, rs)[i]).matched_text
                != noun,
{
    law_negating_word_negates(content, noun, p, word);
    lemma_world_rule_issues_unnegated(content, rs);
}

/// No world-rule issue of `v` names `noun`.
pub open spec fn no_rule_issue_names(v: Seq<IssueView>, noun: Seq<char>) -> bool {
    forall|i: int|
        0 <= i < v.len() && (#[trigger] v[i]).category == IssueCategory::WorldRuleViolation ==> v[i].matched_text
            != noun
}

proof fn lemma_no_rule_issue_concat(a: Seq<IssueView>, b: Seq<IssueView>, noun: Seq<char>)
    requires
        no_rule_issue_names(a, noun),
        no_rule_issue_names(b, noun),
    ensures
        no_rule_issue_names(a + b, noun),
{
    assert forall|i: int|
        0 <= i < (a + b).len() && (#[trigger] (a + b)[i]).category == IssueCategory::WorldRuleViolation implies (a
        + b)[i].matched_text != noun by {
        if i < a.len() {
            assert((a + b)[i] == a[i]);
        } else {
            assert((a + b)[i] == b[i - a.len()]);
        }
    }
}

proof fn lemma_no_rule_issue_with_severity(v: Seq<IssueView>, sev: u8, noun: Seq<char>)
    requires
        no_rule_issue_names(v, noun),
    ensures
        no_rule_issue_names(with_severity(v, sev), noun),
    decreases v.len(),
{
    if v.len() > 0 {
        assert forall|i: int| 0 <= i < v.drop_last().len() implies v.drop_last()[i] == v[i] by {}
        lemma_no_rule_issue_with_severity(v.drop_last(), sev, noun);
        assert(v.last() == v[v.len() - 1]);
        let w = with_severity(v.drop_last(), sev);
        if v.last().severity == sev {
            assert forall|i: int| 0 <= i < w.push(v.last()).len() && (#[trigger] w.push(v.last())[i]).category
                == IssueCategory::WorldRuleViolation implies w.push(v.last())[i].matched_text != noun by {
                if i < w.len() {
                    assert(w.push(v.last())[i] == w[i]);
                }
            }
        }
    }
}

proof fn lemma_dead_character_issues_no_rule(chapter: u32, content: Seq<char>, cs: Seq<FactCharacterView>, noun: Seq<char>)
    ensures
        no_rule_issue_names(dead_character_issues(chapter, content, cs), noun),
    decreases cs.len(),
{
    if cs.len() > 0 {
        lemma_dead_character_issues_no_rule(chapter, content, cs.drop_last(), noun);
        let tail: Seq<IssueView> = if is_revival(chapter, content, cs.last()) {
            seq![revival_issue(chapter, content, cs.last())]
        } else {
            Seq::empty()
        };
        lemma_no_rule_issue_concat(dead_character_issues(chapter, content, cs.drop_last()), tail, noun);
    }
}

proof fn lemma_alias_issues_no_rule(content: Seq<char>, t: Seq<(Vec<char>, usize)>, noun: Seq<char>)
    ensures
        no_rule_issue_names(alias_issues(content, t), noun),
    decreases t.len(),
{
    if t.len() > 0 {
        lemma_alias_issues_no_rule(content, t.drop_last(), noun);
        let tail: Seq<IssueView> = if t.last().1 > 1 {
            seq![alias_issue(content, t.last().0@, t.last().1 as nat)]
        } else {
            Seq::empty()
        };
        lemma_no_rule_issue_concat(alias_issues(content, t.drop_last()), tail, noun);
    }
}

proof fn lemma_quantity_issues_no_rule(content: Seq<char>, t: Seq<(Vec<char>, usize)>, noun: Seq<char>)
    ensures
        no_rule_issue_names(quantity_issues(content, t), noun),
    decreases t.len(),
{
    if t.len() > 0 {
        lemma_quantity_issues_no_rule(content, t.drop_last(), noun);
        let tail: Seq<IssueView> = if t.last().1 >= 3 {
            seq![quantity_issue(content, t.last().0@, t.last().1 as nat)]
        } else {
            Seq::empty()
        };
        lemma_no_rule_issue_concat(quantity_issues(content, t.drop_last()), tail, noun);
    }
}

/// What the checker reports for a chapter never counts a mention excused by
/// a negating word (没有, 并无, 并非, 并未, 并不, 不存, 不具) in the 8 chars
/// before it as a world-rule violation of that noun.
pub proof fn law_check_excuses_negated_mention(
    chapter: u32,
    content: Seq<char>,
    store: FactStore,
    ta: Seq<(Vec<char>, usize)>,
    tq: Seq<(Vec<char>, usize)>,
    noun: Seq<char>,
    p: int,
    word: Seq<char>,
)
    requires
        positions_from(content, noun, 0).contains(p),
        is_negating_word(word),
        contains(window_before(content, p), word),
    ensures
        no_rule_issue_names(by_severity(chapter_issues(chapter, content, store, ta, tq)), noun),
{
    let w = world_rule_issues(content, rule_views(store.world_rules@));
    law_negated_mention_excused(content, rule_views(store.world_rules@), noun, p, word);
    assert(no_rule_issue_names(w, noun));
    let d = dead_character_issues(chapter, content, character_views(store.characters@));
    lemma_dead_character_issues_no_rule(chapter, content, character_views(store.characters@), noun);
    lemma_alias_issues_no_rule(content, ta, noun);
    lemma_quantity_issues_no_rule(content, tq, noun);
    lemma_no_rule_issue_concat(w, d, noun);
    lemma_no_rule_issue_concat(w + d, alias_issues(content, ta), noun);
    lemma_no_rule_issue_concat(w + d + alias_issues(content, ta), quantity_issues(content, tq), noun);
    let all = chapter_issues(chapter, content, store, ta, tq);
    lemma_no_rule_issue_with_severity(all, 2, noun);
    lemma_no_rule_issue_with_severity(all, 1, noun);
    lemma_no_rule_issue_with_severity(all, 0, noun);
    lemma_no_rule_issue_concat(with_severity(all, 2), with_severity(all, 1), noun);
    lemma_no_rule_issue_concat(with_severity(all, 2) + with_severity(all, 1), with_severity(all, 0), noun);
}

/// The rule-based consistency checker.
#[derive(Clone, Copy, Debug, Default)]
pub struct ConsistencyChecker;

impl ConsistencyChecker {
    pub fn new() -> (r: Self) {
        ConsistencyChecker
    }

    /// Checks one chapter against the fact store and lists the issues found,
    /// stably sorted by severity, descending.
    pub fn check_issues(&self, chapter_number: u32, content: &str, store: &FactStore) -> (r: Vec<
        ConsistencyIssue,
    >)
        requires
            revivals_in_range(chapter_number, content@, character_views(store.characters@)),
        ensures
            exists|ta: Seq<(Vec<char>, usize)>, tq: Seq<(Vec<char>, usize)>|
                #![trigger is_tally_of(names_of(character_views(store.characters@)), ta), is_tally_of(quantity_keys(lines(content@)), tq)]
                is_tally_of(names_of(character_views(store.characters@)), ta) && is_tally_of(
                    quantity_keys(lines(content@)),
                    tq,
                ) && issue_views(r@) == by_severity(
                    chapter_issues(chapter_number, content@, *store, ta, tq),
                ),
            severities_valid(issue_views(r@)),
            sorted_by_severity(issue_views(r@)),
    {
        let text = str_to_chars(content);
        let mut issues: Vec<ConsistencyIssue> = Vec::new();
        check_world_rules(&text, store, &mut issues);
        check_dead_characters(chapter_number, &text, store, &mut issues);
        let ghost v2 = issue_views(issues@);
        check_character_aliases(&text, store, &mut issues);
        let ghost ta = choose|t: Seq<(Vec<char>, usize)>|
            is_tally_of(names_of(character_views(store.characters@)), t) && issue_views(issues@)
                == v2 + alias_issues(text@, t);
        let ghost v3 = issue_views(issues@);
        check_quantity_contradictions(&text, &mut issues);
        let ghost tq = choose|t: Seq<(Vec<char>, usize)>|
            is_tally_of(quantity_keys(lines(text@)), t) && issue_views(issues@) == v3
                + quantity_issues(text@, t);
        assert(issue_views(issues@) =~= chapter_issues(chapter_number, content@, *store, ta, tq));
        let sorted = sort_by_severity(&issues);
        proof {
            law_chapter_issues_by_severity(chapter_number, content@, *store, ta, tq);
        }
        sorted
    }
}

} // verus!
