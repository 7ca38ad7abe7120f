//! The kinds of consistency problem and the report that lists them.
use vstd::prelude::*;

verus! {

/// Kind of consistency problem.
#[derive(Clone, Copy, Debug, PartialEq, Eq, Structural)]
pub enum IssueCategory {
    /// Contradicts a locked world rule.
    WorldRuleViolation,
    /// A dead or departed character appears again.
    DeadCharacterRevival,
    /// Events out of order.
    TimelineContradiction,
    /// A character drifts from the established description.
    CharacterDescriptionDrift,
    /// The same number and measure word repeated.
    QuantityContradiction,
    /// Several characters share one name.
    AmbiguousName,
}

pub open spec fn spec_issue_label(c: IssueCategory) -> Seq<char> {
    match c {
        IssueCategory::WorldRuleViolation => "世界规则违反"@,
        IssueCategory::DeadCharacterRevival => "已死亡角色复活"@,
        IssueCategory::TimelineContradiction => "时间线矛盾"@,
        IssueCategory::CharacterDescriptionDrift => "角色设定漂移"@,
        IssueCategory::QuantityContradiction => "数字/量词矛盾"@,
        IssueCategory::AmbiguousName => "角色名歧义"@,
    }
}

impl IssueCategory {
    /// Chinese display label.
    pub fn label(self) -> (r: &'static str)
        ensures
            r@ == spec_issue_label(self),
    {
        match self {
            IssueCategory::WorldRuleViolation => "世界规则违反",
            IssueCategory::DeadCharacterRevival => "已死亡角色复活",
            IssueCategory::TimelineContradiction => "时间线矛盾",
            IssueCategory::CharacterDescriptionDrift => "角色设定漂移",
            IssueCategory::QuantityContradiction => "数字/量词矛盾",
            IssueCategory::AmbiguousName => "角色名歧义",
        }
    }
}

/// One consistency problem.
#[derive(Debug)]
pub struct ConsistencyIssue {
    pub category: IssueCategory,
    /// 0 = hint, 1 = warning, 2 = error.
    pub severity: u8,
    /// What raised it (fact key, character name, ...).
    pub source: String,
    /// The phrase found in the chapter.
    pub matched_text: String,
    /// Human-readable explanation (Chinese).
    pub explanation: String,
}

impl Clone for ConsistencyIssue {
    fn clone(&self) -> (r: Self)
        ensures
            r == *self,
    {
        ConsistencyIssue {
            category: self.category,
            severity: self.severity,
            source: self.source.clone(),
            matched_text: self.matched_text.clone(),
            explanation: self.explanation.clone(),
        }
    }
}

/// The plain content of an issue.
pub struct IssueView {
    pub category: IssueCategory,
    pub severity: u8,
    pub source: Seq<char>,
    pub matched_text: Seq<char>,
    pub explanation: Seq<char>,
}

impl View for ConsistencyIssue {
    type V = IssueView;

    open spec fn view(&self) -> IssueView {
        IssueView {
            category: self.category,
            severity: self.severity,
            source: self.source@,
            matched_text: self.matched_text@,
            explanation: self.explanation@,
        }
    }
}

/// The views of a list of issues.
pub open spec fn issue_views(v: Seq<ConsistencyIssue>) -> Seq<IssueView> {
    Seq::new(v.len(), |i: int| v[i]@)
}

/// Counts per severity.
#[derive(Clone, Copy, Debug, Default)]
pub struct IssueStats {
    pub errors: u32,
    pub warnings: u32,
    pub hints: u32,
}

/// Number of issues with severity `s`.
pub open spec fn severity_count(v: Seq<IssueView>, s: u8) -> nat
    decreases v.len(),
{
    if v.len() == 0 {
        0
    } else {
        severity_count(v.drop_last(), s) + if v.last().severity == s {
            1nat
        } else {
            0nat
        }
    }
}

proof fn lemma_severity_count_bound(v: Seq<IssueView>, s: u8)
    ensures
        severity_count(v, s) <= v.len(),
    decreases v.len(),
{
    if v.len() > 0 {
        lemma_severity_count_bound(v.drop_last(), s);
    }
}

/// The issues of `v` with severity `s`, in their order in `v`.
pub open spec fn with_severity(v: Seq<IssueView>, s: u8) -> Seq<IssueView>
    decreases v.len(),
{
    if v.len() == 0 {
        Seq::empty()
    } else if v.last().severity == s {
        with_severity(v.drop_last(), s).push(v.last())
    } else {
        with_severity(v.drop_last(), s)
    }
}

/// `v` stably sorted by severity, descending: the errors, then the warnings,
/// then the hints, each group in its order in `v`.
pub open spec fn by_severity(v: Seq<IssueView>) -> Seq<IssueView> {
    with_severity(v, 2) + with_severity(v, 1) + with_severity(v, 0)
}

/// Every issue of `v` is a hint, a warning or an error.
pub open spec fn severities_valid(v: Seq<IssueView>) -> bool {
    forall|i: int| 0 <= i < v.len() ==> #[trigger] v[i].severity <= 2
}

/// No issue of `v` is less severe than one after it.
pub open spec fn sorted_by_severity(v: Seq<IssueView>) -> bool {
    forall|i: int, j: int| 0 <= i < j < v.len() ==> #[trigger] v[i].severity >= #[trigger] v[j].severity
}

/// The issues of severity `s` are as many as `severity_count` says, and
/// each has severity `s`.
pub proof fn lemma_with_severity(v: Seq<IssueView>, s: u8)
    ensures
        with_severity(v, s).len() == severity_count(v, s),
        forall|k: int| 0 <= k < with_severity(v, s).len() ==> #[trigger] with_severity(v, s)[k].severity == s,
    decreases v.len(),
{
    if v.len() > 0 {
        lemma_with_severity(v.drop_last(), s);
    }
}

/// Severity counts add up over a concatenation.
pub proof fn lemma_severity_count_concat(a: Seq<IssueView>, b: Seq<IssueView>, s: u8)
    ensures
        severity_count(a + b, s) == severity_count(a, s) + severity_count(b, s),
    decreases b.len(),
{
    if b.len() == 0 {
        assert(a + b =~= a);
    } else {
        lemma_severity_count_concat(a, b.drop_last(), s);
        assert((a + b).drop_last() =~= a + b.drop_last());
        assert((a + b).last() == b.last());
    }
}

/// In a list of issues all of severity `t`, the count of severity `s` is the
/// length when `s == t`, and zero otherwise.
proof fn lemma_severity_count_uniform(v: Seq<IssueView>, t: u8, s: u8)
    requires
        forall|k: int| 0 <= k < v.len() ==> #[trigger] v[k].severity == t,
    ensures
        severity_count(v, s) == if s == t { v.len() } else { 0 },
    decreases v.len(),
{
    if v.len() > 0 {
        lemma_severity_count_uniform(v.drop_last(), t, s);
    }
}

/// The valid severities of a concatenation of valid lists.
pub proof fn lemma_valid_concat(a: Seq<IssueView>, b: Seq<IssueView>)
    requires
        severities_valid(a),
        severities_valid(b),
    ensures
        severities_valid(a + b),
{
    assert forall|i: int| 0 <= i < (a + b).len() implies #[trigger] (a + b)[i].severity <= 2 by {
        if i < a.len() {
            assert((a + b)[i] == a[i]);
        } else {
            assert((a + b)[i] == b[i - a.len()]);
        }
    }
}

/// When every severity is valid, the errors, warnings and hints together are
/// all the issues.
pub proof fn law_severity_counts_sum(v: Seq<IssueView>)
    requires
        severities_valid(v),
    ensures
        severity_count(v, 2) + severity_count(v, 1) + severity_count(v, 0) == v.len(),
    decreases v.len(),
{
    if v.len() > 0 {
        assert(severities_valid(v.drop_last()));
        law_severity_counts_sum(v.drop_last());
        assert(v.last() == v[v.len() - 1]);
    }
}

/// Sorting issues by severity keeps every issue (as many of each severity as
/// before, and so as many in all) and puts no issue before a more severe one.
pub proof fn law_by_severity(v: Seq<IssueView>)
    requires
        severities_valid(v),
    ensures
        by_severity(v).len() == v.len(),
        severity_count(by_severity(v), 2) == severity_count(v, 2),
        severity_count(by_severity(v), 1) == severity_count(v, 1),
        severity_count(by_severity(v), 0) == severity_count(v, 0),
        severities_valid(by_severity(v)),
        sorted_by_severity(by_severity(v)),
{
    let e = with_severity(v, 2);
    let w = with_severity(v, 1);
    let h = with_severity(v, 0);
    lemma_with_severity(v, 2);
    lemma_with_severity(v, 1);
    lemma_with_severity(v, 0);
    law_severity_counts_sum(v);
    let r = by_severity(v);
    assert(r == e + w + h);
    assert forall|s: u8| s <= 2 implies #[trigger] severity_count(r, s) == severity_count(v, s) by {
        lemma_severity_count_concat(e + w, h, s);
        lemma_severity_count_concat(e, w, s);
        lemma_severity_count_uniform(e, 2, s);
        lemma_severity_count_uniform(w, 1, s);
        lemma_severity_count_uniform(h, 0, s);
    }
    assert(severity_count(r, 2) == severity_count(v, 2));
    assert(severity_count(r, 1) == severity_count(v, 1));
    assert(severity_count(r, 0) == severity_count(v, 0));
    // The severity at each position: 2 in the first group, 1 in the second, 0 after.
    assert forall|i: int| 0 <= i < r.len() implies #[trigger] r[i].severity == if i < e.len() {
        2u8
    } else if i < e.len() + w.len() {
        1u8
    } else {
        0u8
    } by {
        if i < e.len() {
            assert(r[i] == e[i]);
        } else if i < e.len() + w.len() {
            assert(r[i] == w[i - e.len()]);
        } else {
            assert(r[i] == h[i - e.len() - w.len()]);
        }
    }
}

/// Appends to `out` the issues of `issues` with severity `s`, in order.
fn push_with_severity(issues: &Vec<ConsistencyIssue>, s: u8, out: &mut Vec<ConsistencyIssue>)
    ensures
        issue_views(final(out)@) == issue_views(old(out)@) + with_severity(issue_views(issues@), s),
{
    let ghost start = issue_views(out@);
    let ghost vs = issue_views(issues@);
    assert(start + with_severity(vs.take(0), s) =~= start);
    for i in 0..issues.len()
        invariant
            vs == issue_views(issues@),
            issue_views(out@) == start + with_severity(vs.take(i as int), s),
    {
        assert(vs.take(i + 1).drop_last() =~= vs.take(i as int));
        assert(vs.take(i + 1).last() == issues@[i as int]@);
        if issues[i].severity == s {
            let ghost before = out@;
            out.push(issues[i].clone());
            assert(issue_views(out@) =~= issue_views(before).push(issues@[i as int]@));
        }
        assert(issue_views(out@) =~= start + with_severity(vs.take(i + 1), s));
    }
    assert(vs.take(vs.len() as int) =~= vs);
}

/// The issues stably sorted by severity, descending: errors, warnings, hints.
pub(crate) fn sort_by_severity(issues: &Vec<ConsistencyIssue>) -> (r: Vec<ConsistencyIssue>)
    ensures
        issue_views(r@) == by_severity(issue_views(issues@)),
{
    let mut r: Vec<ConsistencyIssue> = Vec::new();
    assert(issue_views(r@) =~= Seq::<IssueView>::empty());
    push_with_severity(issues, 2, &mut r);
    push_with_severity(issues, 1, &mut r);
    push_with_severity(issues, 0, &mut r);
    assert(issue_views(r@) =~= by_severity(issue_views(issues@)));
    r
}

impl IssueStats {
    /// Counts the errors (severity 2), warnings (1) and hints (0) of `issues`.
    /// (Each count is taken modulo 2^32, as `count() as u32` does.)
    pub fn from_issues(issues: &Vec<ConsistencyIssue>) -> (r: IssueStats)
        ensures
            r.errors == severity_count(issue_views(issues@), 2) as u32,
            r.warnings == severity_count(issue_views(issues@), 1) as u32,
            r.hints == severity_count(issue_views(issues@), 0) as u32,
    {
        let ghost vs = issue_views(issues@);
        let mut errors: usize = 0;
        let mut warnings: usize = 0;
        let mut hints: usize = 0;
        for i in 0..issues.len()
            invariant
                vs == issue_views(issues@),
                errors == severity_count(vs.take(i as int), 2),
                warnings == severity_count(vs.take(i as int), 1),
                hints == severity_count(vs.take(i as int), 0),
                errors <= i && warnings <= i && hints <= i,
        {
            proof {
                assert(vs.take(i + 1).drop_last() =~= vs.take(i as int));
                assert(vs.take(i + 1).last() == issues@[i as int]@);
                lemma_severity_count_bound(vs.take(i as int), 0);
                lemma_severity_count_bound(vs.take(i as int), 1);
                lemma_severity_count_bound(vs.take(i as int), 2);
            }
            let s = issues[i].severity;
            if s == 2 {
                errors = errors + 1;
            } else if s == 1 {
                warnings = warnings + 1;
            } else if s == 0 {
                hints = hints + 1;
            }
        }
        assert(vs.take(issues@.len() as int) =~= vs);
        IssueStats { errors: errors as u32, warnings: warnings as u32, hints: hints as u32 }
    }
}

/// The report of one chapter's consistency check.
#[derive(Debug)]
pub struct ConsistencyReport {
    pub chapter_number: u32,
    /// 0-100; 100 means no problem found.
    pub score: u8,
    /// All problems found, by severity, descending (stable).
    pub issues: Vec<ConsistencyIssue>,
    /// Counts per severity.
    pub stats: IssueStats,
}

impl ConsistencyReport {
    /// The report of chapter `chapter_number` with the issues found and the
    /// score given them: the issues as they are, counted per severity.
    pub fn assemble(chapter_number: u32, issues: Vec<ConsistencyIssue>, score: u8) -> (r: Self)
        ensures
            r.chapter_number == chapter_number,
            r.score == score,
            r.issues@ == issues@,
            r.stats.errors == severity_count(issue_views(issues@), 2) as u32,
            r.stats.warnings == severity_count(issue_views(issues@), 1) as u32,
            r.stats.hints == severity_count(issue_views(issues@), 0) as u32,
    {
        let stats = IssueStats::from_issues(&issues);
        ConsistencyReport { chapter_number, score, issues, stats }
    }
}

/// In a report whose counts are those of its issues, and whose issues are
/// each a hint, a warning or an error (as every checked issue is), the
/// errors, warnings and hints are exactly the issues of severity 2, 1 and 0,
/// and together they are all the issues.
pub proof fn law_report_counts(r: ConsistencyReport)
    requires
        r.stats.errors == severity_count(issue_views(r.issues@), 2) as u32,
        r.stats.warnings == severity_count(issue_views(r.issues@), 1) as u32,
        r.stats.hints == severity_count(issue_views(r.issues@), 0) as u32,
        severities_valid(issue_views(r.issues@)),
        r.issues@.len() <= u32::MAX,
    ensures
        r.stats.errors == severity_count(issue_views(r.issues@), 2),
        r.stats.warnings == severity_count(issue_views(r.issues@), 1),
        r.stats.hints == severity_count(issue_views(r.issues@), 0),
        r.stats.errors + r.stats.warnings + r.stats.hints == r.issues@.len(),
{
    let v = issue_views(r.issues@);
    law_severity_counts_sum(v);
    lemma_severity_count_bound(v, 0);
    lemma_severity_count_bound(v, 1);
    lemma_severity_count_bound(v, 2);
}

} // verus!
