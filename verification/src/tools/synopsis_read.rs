//! Reading the synopses back: which of them a request gets.
use vstd::prelude::*;

use crate::tools::spec::{ApprovalRequirement, ToolCapability, readonly_capabilities};

use crate::synopsis::generator::ChapterSynopsis;
use crate::synopsis::store::SynopsisStore;

verus! {

/// The synopses before chapter `up_to` (all when it is 0), in chapter order.
pub open spec fn before_chapter(v: Seq<ChapterSynopsis>, up_to: u32) -> Seq<ChapterSynopsis>
    decreases v.len(),
{
    if v.len() == 0 {
        Seq::empty()
    } else {
        before_chapter(v.drop_last(), up_to) + if up_to == 0 || v.last().chapter_number < up_to {
            seq![v.last()]
        } else {
            Seq::empty()
        }
    }
}

/// The last `limit` of them.
pub open spec fn last_n(v: Seq<ChapterSynopsis>, limit: nat) -> Seq<ChapterSynopsis> {
    if v.len() > limit {
        v.skip(v.len() - limit)
    } else {
        v
    }
}

/// The synopses a read request gets: those before chapter `up_to` (all when
/// it is 0), the most recent `limit` of them, in chapter order.
pub fn select_synopses(store: &SynopsisStore, up_to: u32, limit: usize) -> (r: Vec<&ChapterSynopsis>)
    ensures
        r@.map_values(|p: &ChapterSynopsis| *p) == last_n(before_chapter(store.entries(), up_to), limit as nat),
{
    let all = store.synopses();
    let ghost es = store.entries();
    let mut kept: Vec<&ChapterSynopsis> = Vec::new();
    for i in 0..all.len()
        invariant
            all@.len() == es.len(),
            forall|k: int| 0 <= k < all@.len() ==> (#[trigger] all@[k]).0 == es[k].chapter_number && *all@[k].1 == es[k],
            kept@.map_values(|p: &ChapterSynopsis| *p) == before_chapter(es.take(i as int), up_to),
    {
        assert(es.take(i + 1).drop_last() =~= es.take(i as int));
        assert(es.take(i + 1).last() == es[i as int]);
        let (n, s) = all[i];
        let ghost before = kept@.map_values(|p: &ChapterSynopsis| *p);
        if up_to == 0 || n < up_to {
            kept.push(s);
            assert(kept@.map_values(|p: &ChapterSynopsis| *p) =~= before.push(*s));
        }
        assert(kept@.map_values(|p: &ChapterSynopsis| *p) =~= before_chapter(es.take(i + 1), up_to));
    }
    assert(es.take(es.len() as int) =~= es);
    let ghost kv = kept@.map_values(|p: &ChapterSynopsis| *p);
    if kept.len() > limit {
        let drop = kept.len() - limit;
        let mut r: Vec<&ChapterSynopsis> = Vec::new();
        for j in drop..kept.len()
            invariant
                drop <= kept@.len(),
                kv == kept@.map_values(|p: &ChapterSynopsis| *p),
                r@.map_values(|p: &ChapterSynopsis| *p) == kv.subrange(drop as int, j as int),
        {
            let ghost before = r@.map_values(|p: &ChapterSynopsis| *p);
            r.push(kept[j]);
            assert(kv[j as int] == *kept@[j as int]);
            assert(r@.map_values(|p: &ChapterSynopsis| *p) =~= before.push(kv[j as int]));
            assert(r@.map_values(|p: &ChapterSynopsis| *p) =~= kv.subrange(drop as int, j + 1));
        }
        assert(kv.subrange(drop as int, kv.len() as int) =~= kv.skip(drop as int));
        r
    } else {
        kept
    }
}


/// The `novel_synopsis_read` tool: its name, description, capabilities and approval.
pub struct NovelSynopsisReadTool;

impl NovelSynopsisReadTool {
    pub fn name(&self) -> (r: &'static str)
        ensures
            r@ == "novel_synopsis_read"@,
    {
        "novel_synopsis_read"
    }

    pub fn description(&self) -> (r: &'static str)
        ensures
            r@ == "读取之前章节的概要，用于上下文压缩。长项目里，构造下一章的提示时，应优先使用早期章节的概要而不是全文。最近的 `recent_chapters` 章可以按需回退到全文。"@,
    {
        "读取之前章节的概要，用于上下文压缩。长项目里，构造下一章的提示时，应优先使用早期章节的概要而不是全文。最近的 `recent_chapters` 章可以按需回退到全文。"
    }

    pub fn capabilities(&self) -> (r: Vec<ToolCapability>)
        ensures
            r@ == seq![ToolCapability::ReadOnly, ToolCapability::Sandboxable],
    {
        readonly_capabilities()
    }

    pub fn approval_requirement(&self) -> (r: ApprovalRequirement)
        ensures
            r == ApprovalRequirement::Auto,
    {
        ApprovalRequirement::Auto
    }
}

} // verus!
