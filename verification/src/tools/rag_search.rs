//! The retrieval tool.
use vstd::prelude::*;

use crate::rag::retriever::RetrieverError;
use crate::tools::spec::{ApprovalRequirement, ToolCapability, readonly_capabilities};

verus! {

/// The `novel_rag_search` tool: its name, description, capabilities and approval.
pub struct NovelRagSearchTool;

impl NovelRagSearchTool {
    pub fn name(&self) -> (r: &'static str)
        ensures
            r@ == "novel_rag_search"@,
    {
        "novel_rag_search"
    }

    pub fn description(&self) -> (r: &'static str)
        ensures
            r@ == "在事实库 / 人物卡 / 章节摘要中检索相关设定，返回与查询最相关的 top-k 条。"@,
    {
        "在事实库 / 人物卡 / 章节摘要中检索相关设定，返回与查询最相关的 top-k 条。"
    }

    pub fn capabilities(&self) -> (r: Vec<ToolCapability>)
        ensures
            r@ == seq![ToolCapability::ReadOnly, ToolCapability::Sandboxable],
    {
        readonly_capabilities()
    }

    pub fn approval_requirement(&self) -> (r: ApprovalRequirement)
        ensures
            r == ApprovalRequirement::Auto,
    {
        ApprovalRequirement::Auto
    }
}

/// The search options of a request: how many hits at most (5 unless
/// given; a `u64` cast to `usize`), and whether to rebuild the index first
/// (not unless asked).
pub fn search_options(top_k: Option<u64>, rebuild_index: Option<bool>) -> (r: (usize, bool))
    ensures
        r.0 == (match top_k {
            Some(n) => n,
            None => 5,
        }) as usize,
        r.1 == (match rebuild_index {
            Some(b) => b,
            None => false,
        }),
{
    let k: u64 = match top_k {
        Some(n) => n,
        None => 5,
    };
    let rebuild = match rebuild_index {
        Some(b) => b,
        None => false,
    };
    (#[verifier::truncate] (k as usize), rebuild)
}

/// What the search does after its first attempt failed.
#[derive(Clone, Copy, Debug, PartialEq, Eq, Structural)]
pub enum SearchStep {
    /// The index was rebuilt: search it again (no hits if that fails too).
    Retry,
    /// The index is missing and could not be rebuilt: answer no hits, with
    /// the note that the index is empty.
    AnswerEmpty,
    /// Fail the call with the retrieval error.
    Fail,
}

/// The step after a search failed with `e`: a missing index is rebuilt once
/// (`rebuild_failed` says how that went) and searched again, or answered
/// with no hits when it could not be rebuilt; any other error fails.
pub fn after_search_error(e: RetrieverError, rebuild_failed: bool) -> (r: SearchStep)
    ensures
        r == match e {
            RetrieverError::NoIndex => if rebuild_failed {
                SearchStep::AnswerEmpty
            } else {
                SearchStep::Retry
            },
            _ => SearchStep::Fail,
        },
{
    match e {
        RetrieverError::NoIndex => if rebuild_failed {
            SearchStep::AnswerEmpty
        } else {
            SearchStep::Retry
        },
        _ => SearchStep::Fail,
    }
}

} // verus!
