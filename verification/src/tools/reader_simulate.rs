//! Reader simulation: the reader a genre stands for, which chapter file to
//! read, and the prompt for the model.
use vstd::prelude::*;

use crate::tools::spec::{ApprovalRequirement, ToolCapability, readonly_capabilities};

use crate::consistency::checker::{FactStore, FactWorldRule};
use crate::model::Genre;
use crate::synopsis::generator::ChapterSynopsis;
use crate::text::{
    ascii_lower_chars, chars_to_string, copy_range, decimal, decimal_pad3, file_extension, has_extension,
    is_text, push_chars, push_decimal, push_decimal_pad3, push_str, seq_lt, starts_with, starts_with_chars,
    str_to_chars, trim, trim_chars, chars_lt,
};
use crate::tools::pipeline_run::{keyword, rule_lines};
use crate::tools::spec::{joined, push_joined, string_views};

verus! {

/// The genre a reader request names, in English or Chinese; anything else
/// is `Other`.
pub open spec fn spec_reader_genre(s: Seq<char>) -> Genre {
    let k = keyword(s);
    if k == "xianxia"@ || k == "玄幻"@ || k == "仙侠"@ {
        Genre::Xianxia
    } else if k == "urban"@ || k == "都市"@ {
        Genre::Urban
    } else if k == "scifi"@ || k == "sci-fi"@ || k == "科幻"@ {
        Genre::SciFi
    } else if k == "fantasy"@ || k == "奇幻"@ || k == "西幻"@ {
        Genre::Fantasy
    } else if k == "historical"@ || k == "history"@ || k == "历史"@ || k == "穿越"@ {
        Genre::Historical
    } else if k == "romance"@ || k == "言情"@ {
        Genre::Romance
    } else if k == "suspense"@ || k == "悬疑"@ || k == "推理"@ {
        Genre::Suspense
    } else {
        Genre::Other
    }
}

pub fn parse_genre(s: &str) -> (r: Genre)
    ensures
        r == spec_reader_genre(s@),
{
    let k = ascii_lower_chars(&str_to_chars(s));
    if is_text(&k, "xianxia") || is_text(&k, "玄幻") || is_text(&k, "仙侠") {
        Genre::Xianxia
    } else if is_text(&k, "urban") || is_text(&k, "都市") {
        Genre::Urban
    } else if is_text(&k, "scifi") || is_text(&k, "sci-fi") || is_text(&k, "科幻") {
        Genre::SciFi
    } else if is_text(&k, "fantasy") || is_text(&k, "奇幻") || is_text(&k, "西幻") {
        Genre::Fantasy
    } else if is_text(&k, "historical") || is_text(&k, "history") || is_text(&k, "历史") || is_text(
        &k,
        "穿越",
    ) {
        Genre::Historical
    } else if is_text(&k, "romance") || is_text(&k, "言情") {
        Genre::Romance
    } else if is_text(&k, "suspense") || is_text(&k, "悬疑") || is_text(&k, "推理") {
        Genre::Suspense
    } else {
        Genre::Other
    }
}

/// The reader a genre stands for.
pub open spec fn spec_reader_label(g: Genre) -> Seq<char> {
    match g {
        Genre::Xianxia => "仙侠读者（在意境界、资源、师门）"@,
        Genre::Urban => "都市读者（在意金钱、情感、职场）"@,
        Genre::SciFi => "科幻读者（在意设定自洽）"@,
        Genre::Fantasy => "奇幻读者"@,
        Genre::Historical => "穿越 / 历史读者"@,
        Genre::Romance => "言情读者（在意情感递进）"@,
        Genre::Suspense => "悬疑读者（在意线索与公平竞争）"@,
        Genre::Other => "一般读者"@,
    }
}

pub fn reader_label(g: &Genre) -> (r: &'static str)
    ensures
        r@ == spec_reader_label(*g),
{
    match g {
        Genre::Xianxia => "仙侠读者（在意境界、资源、师门）",
        Genre::Urban => "都市读者（在意金钱、情感、职场）",
        Genre::SciFi => "科幻读者（在意设定自洽）",
        Genre::Fantasy => "奇幻读者",
        Genre::Historical => "穿越 / 历史读者",
        Genre::Romance => "言情读者（在意情感递进）",
        Genre::Suspense => "悬疑读者（在意线索与公平竞争）",
        Genre::Other => "一般读者",
    }
}

/// A chapter text as the reader gets it: at most 4000 chars, with a note
/// when it was cut.
pub open spec fn spec_truncate_chapter(body: Seq<char>) -> Seq<char> {
    if body.len() > 4000 {
        body.take(4000) + "\n\n…(已截断)"@
    } else {
        body
    }
}

pub fn truncate_chapter(body: &str) -> (r: String)
    ensures
        r@ == spec_truncate_chapter(body@),
{
    let v = str_to_chars(body);
    if v.len() > 4000 {
        let mut t = copy_range(&v, 0, 4000);
        push_str(&mut t, "\n\n…(已截断)");
        assert(t@ =~= spec_truncate_chapter(body@));
        chars_to_string(&t)
    } else {
        chars_to_string(&v)
    }
}

/// The file-name prefix of a chapter's files, `ch_NNN_` (none without a
/// chapter).
pub open spec fn chapter_prefix(chapter: Option<u32>) -> Seq<char> {
    match chapter {
        Some(n) => "ch_"@ + decimal_pad3(n as nat) + "_"@,
        None => Seq::empty(),
    }
}

/// A chapter file the reader may read: markdown, named for the chapter.
pub open spec fn is_candidate(name: Seq<char>, chapter: Option<u32>) -> bool {
    file_extension(name) == Some("md"@) && starts_with(name, chapter_prefix(chapter))
}

/// Which of the files in `names` the reader reads: among the candidates the
/// last by name order (of equal names, the last listed).
pub fn pick_chapter_file(names: &Vec<String>, chapter: Option<u32>) -> (r: Option<usize>)
    ensures
        r is None ==> forall|j: int| 0 <= j < names@.len() ==> !is_candidate(#[trigger] names@[j]@, chapter),
        r matches Some(i) ==> i < names@.len() && is_candidate(names@[i as int]@, chapter) && forall|j: int|
            0 <= j < names@.len() && is_candidate(#[trigger] names@[j]@, chapter) ==> !seq_lt(
                names@[i as int]@,
                names@[j]@,
            ) && (names@[j]@ == names@[i as int]@ ==> j <= i),
{
    let mut prefix: Vec<char> = Vec::new();
    if let Some(n) = chapter {
        push_str(&mut prefix, "ch_");
        push_decimal_pad3(&mut prefix, n as u64);
        push_str(&mut prefix, "_");
    }
    assert(prefix@ =~= chapter_prefix(chapter));
    let mut best: Option<usize> = None;
    let mut best_name: Vec<char> = Vec::new();
    for k in 0..names.len()
        invariant
            prefix@ == chapter_prefix(chapter),
            best is None ==> forall|j: int| 0 <= j < k ==> !is_candidate(#[trigger] names@[j]@, chapter),
            best matches Some(i) ==> i < k && is_candidate(names@[i as int]@, chapter) && best_name@
                == names@[i as int]@ && forall|j: int|
                0 <= j < k && is_candidate(#[trigger] names@[j]@, chapter) ==> !seq_lt(
                    names@[i as int]@,
                    names@[j]@,
                ) && (names@[j]@ == names@[i as int]@ ==> j <= i),
    {
        let nm = str_to_chars(names[k].as_str());
        if has_extension(names[k].as_str(), "md") && starts_with_chars(&nm, &prefix) {
            let take = match best {
                None => true,
                Some(_) => !chars_lt(&nm, &best_name),
            };
            if take {
                proof {
                    if let Some(i) = best {
                        assert forall|j: int|
                            0 <= j < k + 1 && is_candidate(#[trigger] names@[j]@, chapter) implies !seq_lt(
                            names@[k as int]@,
                            names@[j]@,
                        ) && (names@[j]@ == names@[k as int]@ ==> j <= k) by {
                            if j < k {
                                crate::text::lemma_seq_lt_total(names@[i as int]@, names@[j]@);
                                crate::text::lemma_seq_lt_total(names@[k as int]@, names@[i as int]@);
                                if seq_lt(names@[k as int]@, names@[j]@) {
                                    if names@[k as int]@ == names@[i as int]@ {
                                    } else {
                                        crate::text::lemma_seq_lt_transitive(
                                            names@[i as int]@,
                                            names@[k as int]@,
                                            names@[j]@,
                                        );
                                    }
                                }
                            } else {
                                crate::text::lemma_seq_lt_irreflexive(names@[k as int]@);
                            }
                        }
                    } else {
                        crate::text::lemma_seq_lt_irreflexive(names@[k as int]@);
                    }
                }
                best = Some(k);
                best_name = nm;
            } else {
                proof {
                    if let Some(i) = best {
                        crate::text::lemma_seq_lt_asymmetric(names@[k as int]@, names@[i as int]@);
                        if names@[k as int]@ == names@[i as int]@ {
                            crate::text::lemma_seq_lt_irreflexive(names@[k as int]@);
                        }
                    }
                }
            }
        }
    }
    best
}

/// The summary block of a reader prompt.
pub open spec fn summary_block(s: ChapterSynopsis) -> Seq<char> {
    "\n【摘要】"@ + s.chapter_title@ + "\n事件链："@ + joined(string_views(s.event_chain@), " → "@)
        + "\n章末卡点："@ + s.ending_state.plot_point@ + "\n待回收伏笔："@ + joined(
        string_views(s.pending_hooks@),
        "、"@,
    ) + "\n"@
}

/// The body block: the text, or a note that it is missing.
pub open spec fn body_block(body: Option<Seq<char>>) -> Seq<char> {
    match body {
        Some(t) => if trim(t).len() > 0 {
            "\n【正文】\n"@ + t + "\n"@
        } else {
            "\n（正文缺失，无法判断）\n"@
        },
        None => "\n（正文缺失，无法判断）\n"@,
    }
}

/// The first four locked rules, when the fact store could be read and has
/// rules.
pub open spec fn rules_block(f: Option<FactStore>) -> Seq<char> {
    match f {
        Some(s) => if s.world_rules@.len() > 0 {
            "\n【世界规则速览】\n"@ + rule_lines(
                s.world_rules@.take(
                    if s.world_rules@.len() < 4 {
                        s.world_rules@.len() as int
                    } else {
                        4
                    },
                ),
            )
        } else {
            Seq::empty()
        },
        None => Seq::empty(),
    }
}

pub open spec fn reader_prompt(
    g: Genre,
    chapter: Option<u32>,
    body: Option<Seq<char>>,
    summary: Option<ChapterSynopsis>,
    f: Option<FactStore>,
) -> Seq<char> {
    "你是一位「"@ + spec_reader_label(g) + "」。\n"@ + (match chapter {
        Some(n) => "请评估第 "@ + decimal(n as nat) + " 章。\n"@,
        None => "请评估最近一章。\n"@,
    }) + (match summary {
        Some(s) => summary_block(s),
        None => Seq::empty(),
    }) + body_block(body) + rules_block(f)
}

fn push_head(out: &mut Vec<char>, genre: &Genre, chapter: Option<u32>)
    ensures
        final(out)@ == old(out)@ + "你是一位「"@ + spec_reader_label(*genre) + "」。\n"@ + (match chapter {
            Some(n) => "请评估第 "@ + decimal(n as nat) + " 章。\n"@,
            None => "请评估最近一章。\n"@,
        }),
{
    let ghost start = out@;
    push_str(out, "你是一位「");
    push_str(out, reader_label(genre));
    push_str(out, "」。\n");
    match chapter {
        Some(n) => {
            push_str(out, "请评估第 ");
            push_decimal(out, n as u64);
            push_str(out, " 章。\n");
        },
        None => {
            push_str(out, "请评估最近一章。\n");
        },
    }
    assert(out@ =~= start + "你是一位「"@ + spec_reader_label(*genre) + "」。\n"@ + (match chapter {
        Some(n) => "请评估第 "@ + decimal(n as nat) + " 章。\n"@,
        None => "请评估最近一章。\n"@,
    }));
}

fn push_summary(out: &mut Vec<char>, summary: Option<&ChapterSynopsis>)
    ensures
        final(out)@ == old(out)@ + (match summary {
            Some(s) => summary_block(*s),
            None => Seq::empty(),
        }),
{
    let ghost start = out@;
    if let Some(s) = summary {
        push_str(out, "\n【摘要】");
        push_str(out, s.chapter_title.as_str());
        push_str(out, "\n事件链：");
        push_joined(out, &s.event_chain, " → ");
        push_str(out, "\n章末卡点：");
        push_str(out, s.ending_state.plot_point.as_str());
        push_str(out, "\n待回收伏笔：");
        push_joined(out, &s.pending_hooks, "、");
        push_str(out, "\n");
        assert(out@ =~= start + summary_block(*s));
    } else {
        assert(out@ =~= start + Seq::<char>::empty());
    }
}

fn push_body(out: &mut Vec<char>, body: Option<&str>)
    ensures
        final(out)@ == old(out)@ + body_block(
            match body {
                Some(t) => Some(t@),
                None => None,
            },
        ),
{
    let ghost start = out@;
    let mut missing = true;
    if let Some(t) = body {
        let tv = str_to_chars(t);
        let tt = trim_chars(&tv);
        if tt.len() > 0 {
            push_str(out, "\n【正文】\n");
            push_str(out, t);
            push_str(out, "\n");
            missing = false;
        }
    }
    if missing {
        push_str(out, "\n（正文缺失，无法判断）\n");
    }
    assert(out@ =~= start + body_block(
        match body {
            Some(t) => Some(t@),
            None => None,
        },
    ));
}

fn push_rules(out: &mut Vec<char>, facts: Option<&FactStore>)
    ensures
        final(out)@ == old(out)@ + rules_block(
            match facts {
                Some(s) => Some(*s),
                None => None,
            },
        ),
{
    let ghost start = out@;
    if let Some(s) = facts {
        if s.world_rules.len() > 0 {
            push_str(out, "\n【世界规则速览】\n");
            let n: usize = if s.world_rules.len() < 4 {
                s.world_rules.len()
            } else {
                4
            };
            let ghost mid = out@;
            for i in 0..n
                invariant
                    n <= s.world_rules@.len(),
                    out@ == mid + rule_lines(s.world_rules@.take(i as int)),
            {
                assert(s.world_rules@.take(i + 1).drop_last() =~= s.world_rules@.take(i as int));
                let r = &s.world_rules[i];
                push_str(out, "- [");
                push_str(out, r.category.as_str());
                push_str(out, "] ");
                push_str(out, r.rule.as_str());
                push_str(out, "\n");
                assert(out@ =~= mid + rule_lines(s.world_rules@.take(i + 1)));
            }
        }
    }
    assert(out@ =~= start + rules_block(
        match facts {
            Some(s) => Some(*s),
            None => None,
        },
    ));
}

/// The reader's prompt.
pub fn build_user_prompt(
    genre: &Genre,
    chapter: Option<u32>,
    body: Option<&str>,
    summary: Option<&ChapterSynopsis>,
    facts: Option<&FactStore>,
) -> (r: String)
    ensures
        r@ == reader_prompt(
            *genre,
            chapter,
            match body {
                Some(t) => Some(t@),
                None => None,
            },
            match summary {
                Some(s) => Some(*s),
                None => None,
            },
            match facts {
                Some(s) => Some(*s),
                None => None,
            },
        ),
{
    let mut out: Vec<char> = Vec::new();
    push_head(&mut out, genre, chapter);
    push_summary(&mut out, summary);
    push_body(&mut out, body);
    push_rules(&mut out, facts);
    let r = chars_to_string(&out);
    assert(r@ =~= reader_prompt(
        *genre,
        chapter,
        match body {
            Some(t) => Some(t@),
            None => None,
        },
        match summary {
            Some(s) => Some(*s),
            None => None,
        },
        match facts {
            Some(s) => Some(*s),
            None => None,
        },
    ));
    r
}


/// The `novel_reader_simulate` tool: its name, description, capabilities and approval.
pub struct NovelReaderSimulateTool;

impl NovelReaderSimulateTool {
    pub fn name(&self) -> (r: &'static str)
        ensures
            r@ == "novel_reader_simulate"@,
    {
        "novel_reader_simulate"
    }

    pub fn description(&self) -> (r: &'static str)
        ensures
            r@ == "读者视角模拟：把 LLM 当成目标读者，针对指定章节（或最近一章）输出情绪日记 + 3 个潜在疑问 + 弃书概率。题材决定读者画像（仙侠读者 / 都市读者 / 推理读者）。"@,
    {
        "读者视角模拟：把 LLM 当成目标读者，针对指定章节（或最近一章）输出情绪日记 + 3 个潜在疑问 + 弃书概率。题材决定读者画像（仙侠读者 / 都市读者 / 推理读者）。"
    }

    pub fn capabilities(&self) -> (r: Vec<ToolCapability>)
        ensures
            r@ == seq![ToolCapability::ReadOnly, ToolCapability::Sandboxable],
    {
        readonly_capabilities()
    }

    pub fn approval_requirement(&self) -> (r: ApprovalRequirement)
        ensures
            r == ApprovalRequirement::Auto,
    {
        ApprovalRequirement::Auto
    }
}

} // verus!
