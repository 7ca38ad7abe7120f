//! Building an arc outline: checking the request, and the rule that gives
//! each chapter of an arc its narrative role.
use vstd::prelude::*;

use crate::tools::spec::{ApprovalRequirement, ToolCapability, write_capabilities};

use crate::model::NarrativeNodeType;
use crate::text::{chars_to_string, decimal, push_decimal, push_str, str_to_chars};

verus! {

/// The place of a chapter in the arc's skeleton; each comes with its own
/// emotional valence and tension.
#[derive(Clone, Copy, Debug, PartialEq, Eq, Structural)]
pub enum ChapterBeat {
    /// The first chapter.
    Opening,
    /// The last chapter.
    Finale,
    /// The chapter before the last.
    Turn,
    /// Any other chapter: its place in the five-chapter cycle.
    Cycle(u32),
}

/// The role, title and beat of chapter `i` (0-based) of `total`.
pub open spec fn spec_classify(i: u32, total: u32) -> (NarrativeNodeType, Seq<char>, ChapterBeat) {
    if i == 0 {
        (NarrativeNodeType::Hook, "钩子 Hook"@, ChapterBeat::Opening)
    } else if i + 1 == total {
        (NarrativeNodeType::Climax, "高潮 Climax"@, ChapterBeat::Finale)
    } else if i + 1 == total - 1 {
        (NarrativeNodeType::Twist, "转折 Twist"@, ChapterBeat::Turn)
    } else {
        let p = i % 5;
        if p == 0 {
            (NarrativeNodeType::Setup, "铺垫 Setup"@, ChapterBeat::Cycle(0))
        } else if p == 1 {
            (NarrativeNodeType::Setup, "铺垫 Setup"@, ChapterBeat::Cycle(1))
        } else if p == 2 {
            (NarrativeNodeType::Conflict, "冲突 Conflict"@, ChapterBeat::Cycle(2))
        } else if p == 3 {
            (NarrativeNodeType::Conflict, "冲突 Conflict"@, ChapterBeat::Cycle(3))
        } else {
            (NarrativeNodeType::Payoff, "爽点 Payoff"@, ChapterBeat::Cycle(4))
        }
    }
}

/// The role, title and beat of chapter `i` (0-based) of an arc of `total`.
pub fn classify_chapter(i: u32, total: u32) -> (r: (NarrativeNodeType, &'static str, ChapterBeat))
    requires
        i < total,
    ensures
        (r.0, r.1@, r.2) == spec_classify(i, total),
{
    if i == 0 {
        return (NarrativeNodeType::Hook, "钩子 Hook", ChapterBeat::Opening);
    }
    if i + 1 == total {
        return (NarrativeNodeType::Climax, "高潮 Climax", ChapterBeat::Finale);
    }
    if i + 1 == total - 1 {
        return (NarrativeNodeType::Twist, "转折 Twist", ChapterBeat::Turn);
    }
    let p = i % 5;
    if p == 0 {
        (NarrativeNodeType::Setup, "铺垫 Setup", ChapterBeat::Cycle(0))
    } else if p == 1 {
        (NarrativeNodeType::Setup, "铺垫 Setup", ChapterBeat::Cycle(1))
    } else if p == 2 {
        (NarrativeNodeType::Conflict, "冲突 Conflict", ChapterBeat::Cycle(2))
    } else if p == 3 {
        (NarrativeNodeType::Conflict, "冲突 Conflict", ChapterBeat::Cycle(3))
    } else {
        (NarrativeNodeType::Payoff, "爽点 Payoff", ChapterBeat::Cycle(4))
    }
}

/// Every arc opens on a hook and, with two or more chapters, ends on its
/// climax.
pub proof fn law_arc_opens_and_closes(total: u32)
    requires
        total >= 1,
    ensures
        spec_classify(0, total).0 == NarrativeNodeType::Hook,
        total >= 2 ==> spec_classify((total - 1) as u32, total).0 == NarrativeNodeType::Climax,
{
}

/// Why an outline request is refused, if it is: an empty arc name, or a
/// chapter count outside 1..=1000.
pub open spec fn spec_outline_error(arc_name: Seq<char>, chapter_count: u32) -> Option<Seq<char>> {
    if arc_name.len() == 0 {
        Some("arc_name 为空"@)
    } else if chapter_count == 0 || chapter_count > 1000 {
        Some("target_chapter_count 越界："@ + decimal(chapter_count as nat))
    } else {
        None
    }
}

pub fn check_outline_request(arc_name: &str, chapter_count: u32) -> (r: Option<String>)
    ensures
        match spec_outline_error(arc_name@, chapter_count) {
            Some(m) => r matches Some(s) && s@ == m,
            None => r is None,
        },
{
    let a = str_to_chars(arc_name);
    if a.len() == 0 {
        return Some(crate::text::string_of("arc_name 为空"));
    }
    if chapter_count == 0 || chapter_count > 1000 {
        let mut v = str_to_chars("target_chapter_count 越界：");
        push_decimal(&mut v, chapter_count as u64);
        return Some(chars_to_string(&v));
    }
    None
}


/// The `novel_outline_build` tool: its name, description, capabilities and approval.
pub struct NovelOutlineBuildTool;

impl NovelOutlineBuildTool {
    pub fn name(&self) -> (r: &'static str)
        ensures
            r@ == "novel_outline_build"@,
    {
        "novel_outline_build"
    }

    pub fn description(&self) -> (r: &'static str)
        ensures
            r@ == "为一个故事弧线搭建叙事大纲。生成一个节点树（钩子 / 铺垫 / 冲突 / 高潮 / 转折 / 兑现 / 交代 / 收束），并把大纲写入 outline/arcs/<arc_name>.md。返回生成树的 JSON 结构。"@,
    {
        "为一个故事弧线搭建叙事大纲。生成一个节点树（钩子 / 铺垫 / 冲突 / 高潮 / 转折 / 兑现 / 交代 / 收束），并把大纲写入 outline/arcs/<arc_name>.md。返回生成树的 JSON 结构。"
    }

    pub fn capabilities(&self) -> (r: Vec<ToolCapability>)
        ensures
            r@ == seq![ToolCapability::WritesFiles, ToolCapability::Sandboxable],
    {
        write_capabilities()
    }

    pub fn approval_requirement(&self) -> (r: ApprovalRequirement)
        ensures
            r == ApprovalRequirement::Suggest,
    {
        ApprovalRequirement::Suggest
    }
}

} // verus!
