//! The pipeline tools: starting or moving a run, the prompt of a step, the
//! files it reads, and marking a step done.
use vstd::prelude::*;

use crate::tools::spec::{ApprovalRequirement, ToolCapability, readonly_capabilities};

use crate::agents::pipeline::{spec_step_agent, spec_step_name, spec_step_next, spec_step_phase, PipelineStep};
use crate::agents::state::{is_epoch_stamp, now_iso8601, PipelineRecord, PipelineStatus};
use crate::consistency::checker::FactStore;
use crate::model::Genre;
use crate::synopsis::generator::ChapterSynopsis;
use crate::synopsis::store::{is_recent, SynopsisStore};
use crate::text::{
    chars_to_string, decimal, decimal_pad3, is_text, push_decimal, push_decimal_pad3, push_str,
    setting_key, spec_ascii_lower_seq, ascii_lower_chars, str_to_chars, string_of,
};
use crate::tools::spec::{joined, push_joined, string_views};

verus! {

/// The text a request's keyword is matched by: ASCII lower case. (For the
/// keywords matched here, Unicode lower-casing matches exactly the same
/// texts.)
pub open spec fn keyword(s: Seq<char>) -> Seq<char> {
    spec_ascii_lower_seq(s)
}

fn keyword_of(s: &str) -> (r: Vec<char>)
    ensures
        r@ == keyword(s@),
{
    ascii_lower_chars(&str_to_chars(s))
}

/// The genre a pipeline request names, in English or Chinese.
pub open spec fn spec_parse_genre(s: Seq<char>) -> Option<Genre> {
    let k = keyword(s);
    if k == "xianxia"@ || k == "玄幻"@ || k == "仙侠"@ {
        Some(Genre::Xianxia)
    } else if k == "urban"@ || k == "都市"@ {
        Some(Genre::Urban)
    } else if k == "scifi"@ || k == "sci-fi"@ || k == "科幻"@ {
        Some(Genre::SciFi)
    } else if k == "fantasy"@ || k == "奇幻"@ || k == "西幻"@ {
        Some(Genre::Fantasy)
    } else if k == "historical"@ || k == "history"@ || k == "历史"@ || k == "穿越"@ {
        Some(Genre::Historical)
    } else if k == "romance"@ || k == "言情"@ {
        Some(Genre::Romance)
    } else if k == "suspense"@ || k == "悬疑"@ || k == "推理"@ {
        Some(Genre::Suspense)
    } else if k == "other"@ || k == "其他"@ {
        Some(Genre::Other)
    } else {
        None
    }
}

pub fn parse_genre(s: &str) -> (r: Option<Genre>)
    ensures
        r == spec_parse_genre(s@),
{
    let k = keyword_of(s);
    if is_text(&k, "xianxia") || is_text(&k, "玄幻") || is_text(&k, "仙侠") {
        Some(Genre::Xianxia)
    } else if is_text(&k, "urban") || is_text(&k, "都市") {
        Some(Genre::Urban)
    } else if is_text(&k, "scifi") || is_text(&k, "sci-fi") || is_text(&k, "科幻") {
        Some(Genre::SciFi)
    } else if is_text(&k, "fantasy") || is_text(&k, "奇幻") || is_text(&k, "西幻") {
        Some(Genre::Fantasy)
    } else if is_text(&k, "historical") || is_text(&k, "history") || is_text(&k, "历史") || is_text(
        &k,
        "穿越",
    ) {
        Some(Genre::Historical)
    } else if is_text(&k, "romance") || is_text(&k, "言情") {
        Some(Genre::Romance)
    } else if is_text(&k, "suspense") || is_text(&k, "悬疑") || is_text(&k, "推理") {
        Some(Genre::Suspense)
    } else if is_text(&k, "other") || is_text(&k, "其他") {
        Some(Genre::Other)
    } else {
        None
    }
}

/// The step a request names.
pub open spec fn spec_parse_step(s: Seq<char>) -> Option<PipelineStep> {
    let k = keyword(s);
    if k == "architect_concept"@ {
        Some(PipelineStep::ArchitectConcept)
    } else if k == "outliner_arc"@ {
        Some(PipelineStep::OutlinerArc)
    } else if k == "outliner_chapter"@ {
        Some(PipelineStep::OutlinerChapter)
    } else if k == "writer_draft"@ {
        Some(PipelineStep::WriterDraft)
    } else if k == "editor_polish"@ {
        Some(PipelineStep::EditorPolish)
    } else {
        None
    }
}

pub fn parse_step(s: &str) -> (r: Option<PipelineStep>)
    ensures
        r == spec_parse_step(s@),
{
    let k = keyword_of(s);
    if is_text(&k, "architect_concept") {
        Some(PipelineStep::ArchitectConcept)
    } else if is_text(&k, "outliner_arc") {
        Some(PipelineStep::OutlinerArc)
    } else if is_text(&k, "outliner_chapter") {
        Some(PipelineStep::OutlinerChapter)
    } else if is_text(&k, "writer_draft") {
        Some(PipelineStep::WriterDraft)
    } else if is_text(&k, "editor_polish") {
        Some(PipelineStep::EditorPolish)
    } else {
        None
    }
}

/// The genre of a fresh record: the request's genre (`other` when it names
/// none), and `Other` when it is not a known genre.
pub fn initial_genre(genre: Option<&str>) -> (r: Genre)
    ensures
        r == match spec_parse_genre(
            match genre {
                Some(g) => g@,
                None => "other"@,
            },
        ) {
            Some(g) => g,
            None => Genre::Other,
        },
{
    let g = match genre {
        Some(g) => g,
        None => "other",
    };
    match parse_genre(g) {
        Some(x) => x,
        None => Genre::Other,
    }
}

/// Updates a record from a run request: a known genre, a known step (with
/// its agent and phase) and a chapter (as `u32`) replace the record's; the
/// status becomes running.
pub fn apply_run_input(
    record: &mut PipelineRecord,
    genre: Option<&str>,
    step: Option<&str>,
    chapter: Option<u64>,
)
    ensures
        final(record).genre == (match genre {
            Some(g) => match spec_parse_genre(g@) {
                Some(x) => x,
                None => old(record).genre,
            },
            None => old(record).genre,
        }),
        final(record).step == (match step {
            Some(s) => match spec_parse_step(s@) {
                Some(x) => x,
                None => old(record).step,
            },
            None => old(record).step,
        }),
        (match step {
            Some(s) => spec_parse_step(s@) is Some,
            None => false,
        }) ==> final(record).current_agent == spec_step_agent(final(record).step) && final(record).phase == spec_step_phase(final(record).step),
        !(match step {
            Some(s) => spec_parse_step(s@) is Some,
            None => false,
        }) ==> final(record).current_agent == old(record).current_agent && final(record).phase == old(record).phase,
        final(record).chapter == (match chapter {
            Some(c) => Some(c as u32),
            None => old(record).chapter,
        }),
        final(record).status == PipelineStatus::Running,
        final(record).completed_steps == old(record).completed_steps,
        final(record).last_artifact_summary == old(record).last_artifact_summary,
        final(record).updated_at == old(record).updated_at,
{
    if let Some(g) = genre {
        if let Some(parsed) = parse_genre(g) {
            record.genre = parsed;
        }
    }
    if let Some(s) = step {
        if let Some(parsed) = parse_step(s) {
            record.set_step(parsed);
        }
    }
    if let Some(c) = chapter {
        record.chapter = Some(c as u32);
    }
    record.status = PipelineStatus::Running;
}

/// The status an advance request names: `done` (also when it names none),
/// `failed`, anything else needs the user.
pub open spec fn spec_advance_status(s: Option<Seq<char>>) -> PipelineStatus {
    let t = match s {
        Some(x) => x,
        None => "done"@,
    };
    if t == "done"@ {
        PipelineStatus::Done
    } else if t == "failed"@ {
        PipelineStatus::Failed
    } else {
        PipelineStatus::NeedsHumanInput
    }
}

pub open spec fn opt_str(o: Option<&str>) -> Option<Seq<char>> {
    match o {
        Some(s) => Some(s@),
        None => None,
    }
}

/// Marks the current step with the requested status; a done step is
/// recorded and the record moves to the next step (running), if there is
/// one. The record is stamped with the current time.
pub fn advance_record(record: &mut PipelineRecord, status: Option<&str>, artifact_summary: Option<&str>)
    ensures
        final(record).last_artifact_summary@ == (match artifact_summary {
            Some(s) => s@,
            None => old(record).last_artifact_summary@,
        }),
        spec_advance_status(opt_str(status)) != PipelineStatus::Done ==> final(record).status
            == spec_advance_status(opt_str(status)) && final(record).step == old(record).step
            && final(record).current_agent == old(record).current_agent && final(record).phase == old(record).phase && final(record).completed_steps@ == old(record).completed_steps@,
        spec_advance_status(opt_str(status)) == PipelineStatus::Done ==> final(record).completed_steps@
            == old(record).completed_steps@.push(old(record).step) && match spec_step_next(
            old(record).step,
        ) {
            Some(n) => final(record).step == n && final(record).current_agent == spec_step_agent(n)
                && final(record).phase == spec_step_phase(n) && final(record).status
                == PipelineStatus::Running,
            None => final(record).step == old(record).step && final(record).current_agent == old(record).current_agent && final(record).phase == old(record).phase && final(record).status
                == PipelineStatus::Done,
        },
        final(record).chapter == old(record).chapter,
        final(record).genre == old(record).genre,
        is_epoch_stamp(final(record).updated_at@),
{
    let text = match status {
        Some(s) => s,
        None => "done",
    };
    let t = str_to_chars(text);
    let st = if is_text(&t, "done") {
        PipelineStatus::Done
    } else if is_text(&t, "failed") {
        PipelineStatus::Failed
    } else {
        PipelineStatus::NeedsHumanInput
    };
    record.status = st;
    if let Some(s) = artifact_summary {
        record.last_artifact_summary = string_of(s);
    }
    if st == PipelineStatus::Done {
        let cur = record.step;
        record.completed_steps.push(cur);
        if let Some(next) = cur.next() {
            record.set_step(next);
            record.status = PipelineStatus::Running;
        }
    }
    record.updated_at = now_iso8601();
}

// ---------------------------------------------------------------------------
// The prompt of a step
// ---------------------------------------------------------------------------

/// The variant name of a genre.
pub open spec fn spec_genre_name(g: Genre) -> Seq<char> {
    match g {
        Genre::Xianxia => "Xianxia"@,
        Genre::Urban => "Urban"@,
        Genre::SciFi => "SciFi"@,
        Genre::Fantasy => "Fantasy"@,
        Genre::Historical => "Historical"@,
        Genre::Romance => "Romance"@,
        Genre::Suspense => "Suspense"@,
        Genre::Other => "Other"@,
    }
}

pub fn genre_name(g: Genre) -> (r: &'static str)
    ensures
        r@ == spec_genre_name(g),
{
    match g {
        Genre::Xianxia => "Xianxia",
        Genre::Urban => "Urban",
        Genre::SciFi => "SciFi",
        Genre::Fantasy => "Fantasy",
        Genre::Historical => "Historical",
        Genre::Romance => "Romance",
        Genre::Suspense => "Suspense",
        Genre::Other => "Other",
    }
}

/// The head of a step's prompt: genre, target chapter, the user's idea.
pub open spec fn prompt_head(genre: Genre, chapter: Option<u32>, idea: Seq<char>) -> Seq<char> {
    "题材："@ + spec_genre_name(genre) + "\n"@ + (match chapter {
        Some(c) => "目标章节：第 "@ + decimal(c as nat) + " 章\n"@,
        None => Seq::empty(),
    }) + (if idea.len() > 0 {
        "\n用户灵感：\n"@ + idea + "\n"@
    } else {
        Seq::empty()
    })
}

pub open spec fn rule_lines(rs: Seq<crate::consistency::checker::FactWorldRule>) -> Seq<char>
    decreases rs.len(),
{
    if rs.len() == 0 {
        Seq::empty()
    } else {
        rule_lines(rs.drop_last()) + "- ["@ + rs.last().category@ + "] "@ + rs.last().rule@ + "\n"@
    }
}

pub open spec fn character_lines(cs: Seq<crate::consistency::checker::FactCharacter>) -> Seq<char>
    decreases cs.len(),
{
    if cs.len() == 0 {
        Seq::empty()
    } else {
        character_lines(cs.drop_last()) + "- "@ + cs.last().name@ + "："@ + cs.last().status@ + "\n"@
    }
}

/// The locked rules and known characters, when the fact store could be read.
pub open spec fn facts_part(f: Option<FactStore>) -> Seq<char> {
    match f {
        Some(s) => (if s.world_rules@.len() > 0 {
            "\n已锁定的世界规则：\n"@ + rule_lines(s.world_rules@)
        } else {
            Seq::empty()
        }) + (if s.characters@.len() > 0 {
            "\n已存在的人物：\n"@ + character_lines(s.characters@)
        } else {
            Seq::empty()
        }),
        None => Seq::empty(),
    }
}

pub open spec fn synopsis_lines(v: Seq<ChapterSynopsis>) -> Seq<char>
    decreases v.len(),
{
    if v.len() == 0 {
        Seq::empty()
    } else {
        synopsis_lines(v.drop_last()) + "- 第 "@ + decimal(v.last().chapter_number as nat) + " 章 "@
            + v.last().chapter_title@ + "："@ + joined(string_views(v.last().event_chain@), " → "@)
            + "\n"@
    }
}

/// The recent synopses, when there are any.
pub open spec fn recent_part(rs: Option<Seq<ChapterSynopsis>>) -> Seq<char> {
    match rs {
        Some(v) => if v.len() > 0 {
            "\n最近章节摘要：\n"@ + synopsis_lines(v)
        } else {
            Seq::empty()
        },
        None => Seq::empty(),
    }
}

/// The prompt of a step.
pub open spec fn step_prompt(
    genre: Genre,
    chapter: Option<u32>,
    step: PipelineStep,
    idea: Seq<char>,
    f: Option<FactStore>,
    rs: Option<Seq<ChapterSynopsis>>,
) -> Seq<char> {
    prompt_head(genre, chapter, idea) + facts_part(f) + recent_part(rs) + "\n当前步骤："@
        + spec_step_name(step) + "\n"@
}

fn push_facts(out: &mut Vec<char>, f: Option<&FactStore>)
    ensures
        final(out)@ == old(out)@ + facts_part(
            match f {
                Some(s) => Some(*s),
                None => None,
            },
        ),
{
    let ghost start = out@;
    match f {
        None => {
            assert(out@ =~= start + Seq::<char>::empty());
        },
        Some(s) => {
            if s.world_rules.len() > 0 {
                push_str(out, "\n已锁定的世界规则：\n");
                let ghost mid = out@;
                for i in 0..s.world_rules.len()
                    invariant
                        out@ == mid + rule_lines(s.world_rules@.take(i as int)),
                {
                    assert(s.world_rules@.take(i + 1).drop_last() =~= s.world_rules@.take(i as int));
                    let r = &s.world_rules[i];
                    push_str(out, "- [");
                    push_str(out, r.category.as_str());
                    push_str(out, "] ");
                    push_str(out, r.rule.as_str());
                    push_str(out, "\n");
                    assert(out@ =~= mid + rule_lines(s.world_rules@.take(i + 1)));
                }
                assert(s.world_rules@.take(s.world_rules@.len() as int) =~= s.world_rules@);
            }
            let ghost mid2 = out@;
            if s.characters.len() > 0 {
                push_str(out, "\n已存在的人物：\n");
                let ghost mid = out@;
                for i in 0..s.characters.len()
                    invariant
                        out@ == mid + character_lines(s.characters@.take(i as int)),
                {
                    assert(s.characters@.take(i + 1).drop_last() =~= s.characters@.take(i as int));
                    let c = &s.characters[i];
                    push_str(out, "- ");
                    push_str(out, c.name.as_str());
                    push_str(out, "：");
                    push_str(out, c.status.as_str());
                    push_str(out, "\n");
                    assert(out@ =~= mid + character_lines(s.characters@.take(i + 1)));
                }
                assert(s.characters@.take(s.characters@.len() as int) =~= s.characters@);
            }
            assert(out@ =~= start + facts_part(Some(*s)));
        },
    }
}

/// `rs` is the three newest synopses of the store, or none without a store.
pub open spec fn recent_of_store(summaries: Option<&SynopsisStore>, rs: Option<Seq<ChapterSynopsis>>) -> bool {
    match summaries {
        Some(st) => rs matches Some(v) && is_recent(st.entries(), 3, v),
        None => rs is None,
    }
}

/// The prompt for `step` of the run in `record`, with the user's idea, the
/// fact store and the synopses (each `None` when it could not be read); the
/// recent synopses are the three newest.
pub fn build_user_prompt(
    record: &PipelineRecord,
    step: PipelineStep,
    idea: &str,
    facts: Option<&FactStore>,
    summaries: Option<&SynopsisStore>,
) -> (r: String)
    ensures
        exists|rs: Option<Seq<ChapterSynopsis>>|
            #[trigger] recent_of_store(summaries, rs) && r@ == step_prompt(
                record.genre,
                record.chapter,
                step,
                idea@,
                match facts {
                    Some(s) => Some(*s),
                    None => None,
                },
                rs,
            ),
{
    let mut out: Vec<char> = Vec::new();
    push_str(&mut out, "题材：");
    push_str(&mut out, genre_name(record.genre));
    push_str(&mut out, "\n");
    if let Some(c) = record.chapter {
        push_str(&mut out, "目标章节：第 ");
        push_decimal(&mut out, c as u64);
        push_str(&mut out, " 章\n");
    }
    let iv = str_to_chars(idea);
    if iv.len() > 0 {
        push_str(&mut out, "\n用户灵感：\n");
        push_str(&mut out, idea);
        push_str(&mut out, "\n");
    }
    assert(out@ =~= prompt_head(record.genre, record.chapter, idea@));
    push_facts(&mut out, facts);
    let ghost before_recent = out@;
    let ghost mut rs: Option<Seq<ChapterSynopsis>> = None;
    match summaries {
        None => {},
        Some(st) => {
            let recent = st.recent(3);
            let ghost v = recent@.map_values(|p: &ChapterSynopsis| *p);
            proof {
                rs = Some(v);
            }
            if recent.len() > 0 {
                push_str(&mut out, "\n最近章节摘要：\n");
                let ghost mid = out@;
                for i in 0..recent.len()
                    invariant
                        v == recent@.map_values(|p: &ChapterSynopsis| *p),
                        out@ == mid + synopsis_lines(v.take(i as int)),
                {
                    assert(v.take(i + 1).drop_last() =~= v.take(i as int));
                    let s = recent[i];
                    assert(v[i as int] == *s);
                    push_str(&mut out, "- 第 ");
                    push_decimal(&mut out, s.chapter_number as u64);
                    push_str(&mut out, " 章 ");
                    push_str(&mut out, s.chapter_title.as_str());
                    push_str(&mut out, "：");
                    push_joined(&mut out, &s.event_chain, " → ");
                    push_str(&mut out, "\n");
                    assert(out@ =~= mid + synopsis_lines(v.take(i + 1)));
                }
                assert(v.take(v.len() as int) =~= v);
            }
        },
    }
    assert(out@ =~= before_recent + recent_part(rs));
    push_str(&mut out, "\n当前步骤：");
    push_str(&mut out, step.name());
    push_str(&mut out, "\n");
    let r = chars_to_string(&out);
    assert(recent_of_store(summaries, rs));
    assert(r@ =~= step_prompt(
        record.genre,
        record.chapter,
        step,
        idea@,
        match facts {
            Some(s) => Some(*s),
            None => None,
        },
        rs,
    ));
    r
}

// ---------------------------------------------------------------------------
// The files a step reads
// ---------------------------------------------------------------------------

/// The chapter file of chapter `n`, `chapters/NNN.md`.
pub open spec fn chapter_file(n: u32) -> Seq<char> {
    "chapters/"@ + decimal_pad3(n as nat) + ".md"@
}

/// The workspace files a step reads, relative to the workspace.
pub open spec fn step_reads(step: PipelineStep, chapter: Option<u32>) -> Seq<Seq<char>> {
    let head = seq![".novelwhale/pipeline.json"@];
    let ch = match chapter {
        Some(c) => seq![chapter_file(c)],
        None => Seq::empty(),
    };
    match step {
        PipelineStep::ArchitectConcept => head + seq![".novelwhale/concept.md"@],
        PipelineStep::OutlinerArc => head + seq![".novelwhale/outline.md"@, ".novelwhale/facts.json"@],
        PipelineStep::OutlinerChapter => head + seq![
            ".novelwhale/outline.md"@,
            ".novelwhale/facts.json"@,
        ],
        PipelineStep::WriterDraft => head + ch + seq![
            ".novelwhale/facts.json"@,
            ".novelwhale/outline.md"@,
            ".novelwhale/rag-index.json"@,
        ],
        PipelineStep::EditorPolish => head + ch + seq![".novelwhale/facts.json"@],
    }
}

fn push_text(v: &mut Vec<String>, s: &str)
    ensures
        string_views(final(v)@) == string_views(old(v)@).push(s@),
{
    let t = string_of(s);
    v.push(t);
    assert(string_views(v@) =~= string_views(old(v)@).push(s@));
}

/// The files the record's step reads, relative to the workspace.
pub fn pipeline_reads(record: &PipelineRecord) -> (r: Vec<String>)
    ensures
        string_views(r@) == step_reads(record.step, record.chapter),
{
    let mut out: Vec<String> = Vec::new();
    push_text(&mut out, ".novelwhale/pipeline.json");
    let ghost head = string_views(out@);
    match record.step {
        PipelineStep::ArchitectConcept => {
            push_text(&mut out, ".novelwhale/concept.md");
        },
        PipelineStep::OutlinerArc | PipelineStep::OutlinerChapter => {
            push_text(&mut out, ".novelwhale/outline.md");
            push_text(&mut out, ".novelwhale/facts.json");
        },
        PipelineStep::WriterDraft => {
            if let Some(c) = record.chapter {
                let mut p: Vec<char> = Vec::new();
                push_str(&mut p, "chapters/");
                push_decimal_pad3(&mut p, c as u64);
                push_str(&mut p, ".md");
                let t = chars_to_string(&p);
                let ghost before = string_views(out@);
                out.push(t);
                assert(string_views(out@) =~= before.push(chapter_file(c)));
            }
            push_text(&mut out, ".novelwhale/facts.json");
            push_text(&mut out, ".novelwhale/outline.md");
            push_text(&mut out, ".novelwhale/rag-index.json");
        },
        PipelineStep::EditorPolish => {
            if let Some(c) = record.chapter {
                let mut p: Vec<char> = Vec::new();
                push_str(&mut p, "chapters/");
                push_decimal_pad3(&mut p, c as u64);
                push_str(&mut p, ".md");
                let t = chars_to_string(&p);
                let ghost before = string_views(out@);
                out.push(t);
                assert(string_views(out@) =~= before.push(chapter_file(c)));
            }
            push_text(&mut out, ".novelwhale/facts.json");
        },
    }
    assert(string_views(out@) =~= step_reads(record.step, record.chapter));
    out
}


/// The `novel_pipeline_run` tool: its name, description, capabilities and approval.
pub struct NovelPipelineRunTool;

impl NovelPipelineRunTool {
    pub fn name(&self) -> (r: &'static str)
        ensures
            r@ == "novel_pipeline_run"@,
    {
        "novel_pipeline_run"
    }

    pub fn description(&self) -> (r: &'static str)
        ensures
            r@ == "启动 / 推进子 Agent 流水线：返回当前步骤、该步骤对应的 Agent、它的系统提示、要写到哪里、要读什么上下文。"@,
    {
        "启动 / 推进子 Agent 流水线：返回当前步骤、该步骤对应的 Agent、它的系统提示、要写到哪里、要读什么上下文。"
    }

    pub fn capabilities(&self) -> (r: Vec<ToolCapability>)
        ensures
            r@ == seq![ToolCapability::ReadOnly, ToolCapability::Sandboxable],
    {
        readonly_capabilities()
    }

    pub fn approval_requirement(&self) -> (r: ApprovalRequirement)
        ensures
            r == ApprovalRequirement::Auto,
    {
        ApprovalRequirement::Auto
    }
}

/// The `novel_pipeline_advance` tool: its name, description, capabilities and approval.
pub struct NovelPipelineAdvanceTool;

impl NovelPipelineAdvanceTool {
    pub fn name(&self) -> (r: &'static str)
        ensures
            r@ == "novel_pipeline_advance"@,
    {
        "novel_pipeline_advance"
    }

    pub fn description(&self) -> (r: &'static str)
        ensures
            r@ == "把当前步骤标记为完成，把下一步写入 pipeline.json。模型把工件写完后调用本工具。"@,
    {
        "把当前步骤标记为完成，把下一步写入 pipeline.json。模型把工件写完后调用本工具。"
    }

    pub fn capabilities(&self) -> (r: Vec<ToolCapability>)
        ensures
            r@ == seq![ToolCapability::ReadOnly, ToolCapability::Sandboxable],
    {
        readonly_capabilities()
    }

    pub fn approval_requirement(&self) -> (r: ApprovalRequirement)
        ensures
            r == ApprovalRequirement::Auto,
    {
        ApprovalRequirement::Auto
    }
}

} // verus!
