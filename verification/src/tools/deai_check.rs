//! The de-AI audit tool.
use vstd::prelude::*;

use crate::tools::spec::{ApprovalRequirement, ToolCapability, readonly_capabilities};

verus! {

/// The `novel_deai_check` tool: its name, description, capabilities and approval.
pub struct NovelDeaiCheckTool;

impl NovelDeaiCheckTool {
    pub fn name(&self) -> (r: &'static str)
        ensures
            r@ == "novel_deai_check"@,
    {
        "novel_deai_check"
    }

    pub fn description(&self) -> (r: &'static str)
        ensures
            r@ == "对单章正文做去 AI 化审计：扫描套话（抽象描写、转折、公式化对话、副词滥用等），输出人类度分数和给 LLM 看的修改建议。"@,
    {
        "对单章正文做去 AI 化审计：扫描套话（抽象描写、转折、公式化对话、副词滥用等），输出人类度分数和给 LLM 看的修改建议。"
    }

    pub fn capabilities(&self) -> (r: Vec<ToolCapability>)
        ensures
            r@ == seq![ToolCapability::ReadOnly, ToolCapability::Sandboxable],
    {
        readonly_capabilities()
    }

    pub fn approval_requirement(&self) -> (r: ApprovalRequirement)
        ensures
            r == ApprovalRequirement::Auto,
    {
        ApprovalRequirement::Auto
    }
}

} // verus!
