//! The consistency audit tool.
use vstd::prelude::*;

use crate::tools::spec::{ApprovalRequirement, ToolCapability, readonly_capabilities};

verus! {

/// The `novel_consistency_check` tool: its name, description, capabilities and approval.
pub struct NovelConsistencyCheckTool;

impl NovelConsistencyCheckTool {
    pub fn name(&self) -> (r: &'static str)
        ensures
            r@ == "novel_consistency_check"@,
    {
        "novel_consistency_check"
    }

    pub fn description(&self) -> (r: &'static str)
        ensures
            r@ == "对单章正文做一致性审计：检查世界规则、已退场角色、量词重复、角色名歧义等。输入 chapter_number + content（或 chapter_path），输出 0-100 分 + 问题清单。"@,
    {
        "对单章正文做一致性审计：检查世界规则、已退场角色、量词重复、角色名歧义等。输入 chapter_number + content（或 chapter_path），输出 0-100 分 + 问题清单。"
    }

    pub fn capabilities(&self) -> (r: Vec<ToolCapability>)
        ensures
            r@ == seq![ToolCapability::ReadOnly, ToolCapability::Sandboxable],
    {
        readonly_capabilities()
    }

    pub fn approval_requirement(&self) -> (r: ApprovalRequirement)
        ensures
            r == ApprovalRequirement::Auto,
    {
        ApprovalRequirement::Auto
    }
}

} // verus!
