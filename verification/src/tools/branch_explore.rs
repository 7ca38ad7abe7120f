//! Branch exploration at a decision point: how many branches a request
//! gets, and the facts its prompt lists.
use vstd::prelude::*;

use crate::tools::spec::{ApprovalRequirement, ToolCapability, readonly_capabilities};

use crate::consistency::checker::{FactCharacter, FactStore};
use crate::text::{chars_to_string, push_str};
use crate::tools::pipeline_run::rule_lines;

verus! {

/// The number of branches a request asks for: 3 by default, kept within
/// 2..=4.
pub fn branch_count(requested: Option<u64>) -> (r: u64)
    ensures
        r == match requested {
            Some(c) => if c < 2 {
                2
            } else if c > 4 {
                4
            } else {
                c
            },
            None => 3,
        },
{
    let c = match requested {
        Some(c) => c,
        None => 3,
    };
    if c < 2 {
        2
    } else if c > 4 {
        4
    } else {
        c
    }
}

pub open spec fn person_lines(cs: Seq<FactCharacter>) -> Seq<char>
    decreases cs.len(),
{
    if cs.len() == 0 {
        Seq::empty()
    } else {
        person_lines(cs.drop_last()) + "- "@ + cs.last().name@ + "（"@ + cs.last().status@ + "）\n"@
    }
}

pub open spec fn first8<T>(v: Seq<T>) -> Seq<T> {
    v.take(
        if v.len() < 8 {
            v.len() as int
        } else {
            8
        },
    )
}

/// The facts a branch prompt lists: the first eight locked rules and the
/// first eight characters.
pub open spec fn spec_branch_facts(s: FactStore) -> Seq<char> {
    (if s.world_rules@.len() > 0 {
        "\n世界规则（必须遵守）：\n"@ + rule_lines(first8(s.world_rules@))
    } else {
        Seq::empty()
    }) + (if s.characters@.len() > 0 {
        "\n已存在人物：\n"@ + person_lines(first8(s.characters@))
    } else {
        Seq::empty()
    })
}

pub fn branch_facts(store: &FactStore) -> (r: String)
    ensures
        r@ == spec_branch_facts(*store),
{
    let mut out: Vec<char> = Vec::new();
    if store.world_rules.len() > 0 {
        push_str(&mut out, "\n世界规则（必须遵守）：\n");
        let n: usize = if store.world_rules.len() < 8 {
            store.world_rules.len()
        } else {
            8
        };
        let ghost mid = out@;
        for i in 0..n
            invariant
                n <= store.world_rules@.len(),
                out@ == mid + rule_lines(store.world_rules@.take(i as int)),
        {
            assert(store.world_rules@.take(i + 1).drop_last() =~= store.world_rules@.take(i as int));
            let r = &store.world_rules[i];
            push_str(&mut out, "- [");
            push_str(&mut out, r.category.as_str());
            push_str(&mut out, "] ");
            push_str(&mut out, r.rule.as_str());
            push_str(&mut out, "\n");
            assert(out@ =~= mid + rule_lines(store.world_rules@.take(i + 1)));
        }
    }
    let ghost half = out@;
    if store.characters.len() > 0 {
        push_str(&mut out, "\n已存在人物：\n");
        let n: usize = if store.characters.len() < 8 {
            store.characters.len()
        } else {
            8
        };
        let ghost mid = out@;
        for i in 0..n
            invariant
                n <= store.characters@.len(),
                out@ == mid + person_lines(store.characters@.take(i as int)),
        {
            assert(store.characters@.take(i + 1).drop_last() =~= store.characters@.take(i as int));
            let c = &store.characters[i];
            push_str(&mut out, "- ");
            push_str(&mut out, c.name.as_str());
            push_str(&mut out, "（");
            push_str(&mut out, c.status.as_str());
            push_str(&mut out, "）\n");
            assert(out@ =~= mid + person_lines(store.characters@.take(i + 1)));
        }
    }
    assert(out@ =~= spec_branch_facts(*store));
    chars_to_string(&out)
}


/// The `novel_branch_explore` tool: its name, description, capabilities and approval.
pub struct NovelBranchExploreTool;

impl NovelBranchExploreTool {
    pub fn name(&self) -> (r: &'static str)
        ensures
            r@ == "novel_branch_explore"@,
    {
        "novel_branch_explore"
    }

    pub fn description(&self) -> (r: &'static str)
        ensures
            r@ == "决策点分支探索：给定一个叙事节点 id，调用 LLM 生成 N 条互斥的剧情分支，落到 .novelwhale/branches.json。作家选定一条后再用 novel_outline_build 把它合并回 narrative graph。"@,
    {
        "决策点分支探索：给定一个叙事节点 id，调用 LLM 生成 N 条互斥的剧情分支，落到 .novelwhale/branches.json。作家选定一条后再用 novel_outline_build 把它合并回 narrative graph。"
    }

    pub fn capabilities(&self) -> (r: Vec<ToolCapability>)
        ensures
            r@ == seq![ToolCapability::ReadOnly, ToolCapability::Sandboxable],
    {
        readonly_capabilities()
    }

    pub fn approval_requirement(&self) -> (r: ApprovalRequirement)
        ensures
            r == ApprovalRequirement::Suggest,
    {
        ApprovalRequirement::Suggest
    }
}

} // verus!
