//! Looking up a genre's template: the genre a request names, and its
//! lower-case id.
use vstd::prelude::*;

use crate::tools::spec::{ApprovalRequirement, ToolCapability, readonly_capabilities};

use crate::model::Genre;
use crate::text::{ascii_lower_chars, is_text, str_to_chars};
use crate::tools::pipeline_run::keyword;

verus! {

/// The genre a template request names, in English or Chinese.
pub open spec fn spec_template_genre(s: Seq<char>) -> Option<Genre> {
    let k = keyword(s);
    if k == "xianxia"@ || k == "玄幻"@ || k == "仙侠"@ {
        Some(Genre::Xianxia)
    } else if k == "urban"@ || k == "都市"@ || k == "都市日常"@ {
        Some(Genre::Urban)
    } else if k == "scifi"@ || k == "sci-fi"@ || k == "科幻"@ {
        Some(Genre::SciFi)
    } else if k == "fantasy"@ || k == "奇幻"@ || k == "西幻"@ {
        Some(Genre::Fantasy)
    } else if k == "historical"@ || k == "history"@ || k == "历史"@ || k == "穿越"@ {
        Some(Genre::Historical)
    } else if k == "romance"@ || k == "言情"@ {
        Some(Genre::Romance)
    } else if k == "suspense"@ || k == "悬疑"@ || k == "推理"@ {
        Some(Genre::Suspense)
    } else if k == "other"@ || k == "其他"@ {
        Some(Genre::Other)
    } else {
        None
    }
}

pub fn parse_genre(s: &str) -> (r: Option<Genre>)
    ensures
        r == spec_template_genre(s@),
{
    let k = ascii_lower_chars(&str_to_chars(s));
    if is_text(&k, "xianxia") || is_text(&k, "玄幻") || is_text(&k, "仙侠") {
        Some(Genre::Xianxia)
    } else if is_text(&k, "urban") || is_text(&k, "都市") || is_text(&k, "都市日常") {
        Some(Genre::Urban)
    } else if is_text(&k, "scifi") || is_text(&k, "sci-fi") || is_text(&k, "科幻") {
        Some(Genre::SciFi)
    } else if is_text(&k, "fantasy") || is_text(&k, "奇幻") || is_text(&k, "西幻") {
        Some(Genre::Fantasy)
    } else if is_text(&k, "historical") || is_text(&k, "history") || is_text(&k, "历史") || is_text(
        &k,
        "穿越",
    ) {
        Some(Genre::Historical)
    } else if is_text(&k, "romance") || is_text(&k, "言情") {
        Some(Genre::Romance)
    } else if is_text(&k, "suspense") || is_text(&k, "悬疑") || is_text(&k, "推理") {
        Some(Genre::Suspense)
    } else if is_text(&k, "other") || is_text(&k, "其他") {
        Some(Genre::Other)
    } else {
        None
    }
}

/// The lower-case variant name of a genre (`xianxia`, `scifi`, ...).
pub open spec fn spec_genre_id(g: Genre) -> Seq<char> {
    match g {
        Genre::Xianxia => "xianxia"@,
        Genre::Urban => "urban"@,
        Genre::SciFi => "scifi"@,
        Genre::Fantasy => "fantasy"@,
        Genre::Historical => "historical"@,
        Genre::Romance => "romance"@,
        Genre::Suspense => "suspense"@,
        Genre::Other => "other"@,
    }
}

pub fn genre_id(g: Genre) -> (r: &'static str)
    ensures
        r@ == spec_genre_id(g),
{
    match g {
        Genre::Xianxia => "xianxia",
        Genre::Urban => "urban",
        Genre::SciFi => "scifi",
        Genre::Fantasy => "fantasy",
        Genre::Historical => "historical",
        Genre::Romance => "romance",
        Genre::Suspense => "suspense",
        Genre::Other => "other",
    }
}


/// The `novel_genre_template` tool: its name, description, capabilities and approval.
pub struct NovelGenreTemplateTool;

impl NovelGenreTemplateTool {
    pub fn name(&self) -> (r: &'static str)
        ensures
            r@ == "novel_genre_template"@,
    {
        "novel_genre_template"
    }

    pub fn description(&self) -> (r: &'static str)
        ensures
            r@ == "查询 / 应用题材模板：返回指定题材的节奏配方、推荐字数、故事弧线、关键要诀、常见爽点，以及题材专有的一致性规则。"@,
    {
        "查询 / 应用题材模板：返回指定题材的节奏配方、推荐字数、故事弧线、关键要诀、常见爽点，以及题材专有的一致性规则。"
    }

    pub fn capabilities(&self) -> (r: Vec<ToolCapability>)
        ensures
            r@ == seq![ToolCapability::ReadOnly, ToolCapability::Sandboxable],
    {
        readonly_capabilities()
    }

    pub fn approval_requirement(&self) -> (r: ApprovalRequirement)
        ensures
            r == ApprovalRequirement::Auto,
    {
        ApprovalRequirement::Auto
    }
}

} // verus!
