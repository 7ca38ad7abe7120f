//! Genre-specific consistency rules.
use vstd::prelude::*;

use crate::model::Genre;
use crate::text::string_of;

verus! {

/// How serious breaking a rule is.
#[derive(Clone, Copy, Debug, PartialEq, Eq, Structural)]
pub enum RuleSeverity {
    Info,
    Warning,
    Hard,
}

/// The lower-case name of a severity.
pub open spec fn spec_severity_str(s: RuleSeverity) -> Seq<char> {
    match s {
        RuleSeverity::Info => "info"@,
        RuleSeverity::Warning => "warning"@,
        RuleSeverity::Hard => "hard"@,
    }
}

impl RuleSeverity {
    /// `info`, `warning` or `hard`.
    pub fn as_str(self) -> (r: &'static str)
        ensures
            r@ == spec_severity_str(self),
    {
        match self {
            RuleSeverity::Info => "info",
            RuleSeverity::Warning => "warning",
            RuleSeverity::Hard => "hard",
        }
    }
}

/// One genre rule.
#[derive(Clone, Debug)]
pub struct GenreRule {
    pub id: String,
    pub description: String,
    pub severity: RuleSeverity,
    /// The substring a keyword scan looks for.
    pub check_hint: String,
}

/// The rules of each genre: id, description, severity, hint.
pub open spec fn genre_rule_rows(g: Genre) -> Seq<(Seq<char>, Seq<char>, RuleSeverity, Seq<char>)> {
    match g {
        Genre::Xianxia => seq![
            ("realm-named-once"@, "境界 / 法宝名称全书统一；同一境界在不同章节不能有不同别名"@, RuleSeverity::Hard, "境界"@),
            ("protagonist-not-omnipotent"@, "金手指必须有明确限制，主角不可无理由碾压高境界"@, RuleSeverity::Warning, "金手指"@),
        ],
        Genre::Urban => seq![
            ("money-arithmetic"@, "金额 / 收入 / 资产要前后一致"@, RuleSeverity::Hard, "万 / 亿 / 元"@),
        ],
        Genre::SciFi => seq![
            ("tech-consistency"@, "同一装置的能力不能在不同章节里矛盾"@, RuleSeverity::Hard, "装置 / 引擎"@),
        ],
        Genre::Fantasy => seq![
            ("magic-cost"@, "魔法 / 神术必须有代价，不能免费用"@, RuleSeverity::Warning, "代价"@),
        ],
        Genre::Historical => seq![
            ("era-terms"@, "官职 / 礼仪 / 称谓要符合朝代"@, RuleSeverity::Warning, "臣 / 陛下 / 圣上"@),
        ],
        Genre::Romance => seq![
            ("relationship-pacing"@, "关系进展要符合既定的相识 → 试探 → 在一起三段式"@, RuleSeverity::Info, "心动 / 在意"@),
        ],
        Genre::Suspense => seq![
            ("alibi-consistency"@, "嫌疑人的不在场证明在不同章节里不能自相矛盾"@, RuleSeverity::Hard, "证人 / 不在场"@),
        ],
        Genre::Other => Seq::empty(),
    }
}

pub open spec fn rule_matches(r: GenreRule, row: (Seq<char>, Seq<char>, RuleSeverity, Seq<char>)) -> bool {
    r.id@ == row.0 && r.description@ == row.1 && r.severity == row.2 && r.check_hint@ == row.3
}

pub open spec fn rules_match(rs: Seq<GenreRule>, rows: Seq<(Seq<char>, Seq<char>, RuleSeverity, Seq<char>)>) -> bool {
    rs.len() == rows.len() && forall|i: int| 0 <= i < rs.len() ==> rule_matches(#[trigger] rs[i], rows[i])
}

fn push_rule(v: &mut Vec<GenreRule>, id: &str, description: &str, severity: RuleSeverity, check_hint: &str)
    ensures
        final(v)@.len() == old(v)@.len() + 1,
        forall|i: int| 0 <= i < old(v)@.len() ==> final(v)@[i] == old(v)@[i],
        rule_matches(final(v)@.last(), (id@, description@, severity, check_hint@)),
{
    v.push(
        GenreRule {
            id: string_of(id),
            description: string_of(description),
            severity,
            check_hint: string_of(check_hint),
        },
    );
}

/// The consistency rules of a genre.
pub fn rules_for(genre: Genre) -> (r: Vec<GenreRule>)
    ensures
        rules_match(r@, genre_rule_rows(genre)),
{
    let mut v: Vec<GenreRule> = Vec::new();
    match genre {
        Genre::Xianxia => {
            push_rule(&mut v, "realm-named-once", "境界 / 法宝名称全书统一；同一境界在不同章节不能有不同别名", RuleSeverity::Hard, "境界");
            push_rule(&mut v, "protagonist-not-omnipotent", "金手指必须有明确限制，主角不可无理由碾压高境界", RuleSeverity::Warning, "金手指");
        },
        Genre::Urban => {
            push_rule(&mut v, "money-arithmetic", "金额 / 收入 / 资产要前后一致", RuleSeverity::Hard, "万 / 亿 / 元");
        },
        Genre::SciFi => {
            push_rule(&mut v, "tech-consistency", "同一装置的能力不能在不同章节里矛盾", RuleSeverity::Hard, "装置 / 引擎");
        },
        Genre::Fantasy => {
            push_rule(&mut v, "magic-cost", "魔法 / 神术必须有代价，不能免费用", RuleSeverity::Warning, "代价");
        },
        Genre::Historical => {
            push_rule(&mut v, "era-terms", "官职 / 礼仪 / 称谓要符合朝代", RuleSeverity::Warning, "臣 / 陛下 / 圣上");
        },
        Genre::Romance => {
            push_rule(&mut v, "relationship-pacing", "关系进展要符合既定的相识 → 试探 → 在一起三段式", RuleSeverity::Info, "心动 / 在意");
        },
        Genre::Suspense => {
            push_rule(&mut v, "alibi-consistency", "嫌疑人的不在场证明在不同章节里不能自相矛盾", RuleSeverity::Hard, "证人 / 不在场");
        },
        Genre::Other => {
        },
    }
    assert(rules_match(v@, genre_rule_rows(genre)));
    v
}

/// Every genre but "other" has at least one rule; "other" has none.
pub proof fn law_rules_cover_genres(g: Genre)
    ensures
        (genre_rule_rows(g).len() == 0) <==> g == Genre::Other,
{
}

} // verus!
