//! Switching the creation stage.
use vstd::prelude::*;

use crate::tools::spec::{ApprovalRequirement, ToolCapability, readonly_capabilities};

use crate::model::CreationStage;
use crate::text::{ascii_lower_chars, is_text, spec_ascii_lower_seq, str_to_chars};

verus! {

/// The stage a request names (ASCII case-insensitive).
pub open spec fn spec_parse_stage(s: Seq<char>) -> Option<CreationStage> {
    let k = spec_ascii_lower_seq(s);
    if k == "concept"@ {
        Some(CreationStage::Concept)
    } else if k == "outline"@ {
        Some(CreationStage::Outline)
    } else if k == "detail"@ {
        Some(CreationStage::Detail)
    } else if k == "draft"@ {
        Some(CreationStage::Draft)
    } else if k == "polish"@ {
        Some(CreationStage::Polish)
    } else {
        None
    }
}

pub fn parse_stage(s: &str) -> (r: Option<CreationStage>)
    ensures
        r == spec_parse_stage(s@),
{
    let k = ascii_lower_chars(&str_to_chars(s));
    if is_text(&k, "concept") {
        Some(CreationStage::Concept)
    } else if is_text(&k, "outline") {
        Some(CreationStage::Outline)
    } else if is_text(&k, "detail") {
        Some(CreationStage::Detail)
    } else if is_text(&k, "draft") {
        Some(CreationStage::Draft)
    } else if is_text(&k, "polish") {
        Some(CreationStage::Polish)
    } else {
        None
    }
}


/// The `novel_stage_set` tool: its name, description, capabilities and approval.
pub struct NovelStageSetTool;

impl NovelStageSetTool {
    pub fn name(&self) -> (r: &'static str)
        ensures
            r@ == "novel_stage_set"@,
    {
        "novel_stage_set"
    }

    pub fn description(&self) -> (r: &'static str)
        ensures
            r@ == "切换当前创作阶段。合法转移：构思 → 大纲 → 细纲 → 初稿 → 润色。用 /stage skip 强制跳过中间阶段，但仅在确实知道自己在做什么时使用。下一轮会注入对应阶段的 delta 提示。"@,
    {
        "切换当前创作阶段。合法转移：构思 → 大纲 → 细纲 → 初稿 → 润色。用 /stage skip 强制跳过中间阶段，但仅在确实知道自己在做什么时使用。下一轮会注入对应阶段的 delta 提示。"
    }

    pub fn capabilities(&self) -> (r: Vec<ToolCapability>)
        ensures
            r@ == seq![ToolCapability::ReadOnly, ToolCapability::Sandboxable],
    {
        readonly_capabilities()
    }

    pub fn approval_requirement(&self) -> (r: ApprovalRequirement)
        ensures
            r == ApprovalRequirement::Auto,
    {
        ApprovalRequirement::Auto
    }
}

} // verus!
