//! The steps of the pipeline, from concept to polish.
use vstd::prelude::*;

use super::roles::AgentRole;
use super::state::PipelinePhase;
use crate::model::Genre;

verus! {

/// A step of the pipeline.
#[derive(Clone, Copy, Debug, PartialEq, Eq, Structural, Hash)]
pub enum PipelineStep {
    ArchitectConcept,
    OutlinerArc,
    OutlinerChapter,
    WriterDraft,
    EditorPolish,
}

/// The step after `s`, if any.
pub open spec fn spec_step_next(s: PipelineStep) -> Option<PipelineStep> {
    match s {
        PipelineStep::ArchitectConcept => Some(PipelineStep::OutlinerArc),
        PipelineStep::OutlinerArc => Some(PipelineStep::OutlinerChapter),
        PipelineStep::OutlinerChapter => Some(PipelineStep::WriterDraft),
        PipelineStep::WriterDraft => Some(PipelineStep::EditorPolish),
        PipelineStep::EditorPolish => None,
    }
}

/// The role in charge of a step.
pub open spec fn spec_step_agent(s: PipelineStep) -> AgentRole {
    match s {
        PipelineStep::ArchitectConcept => AgentRole::Architect,
        PipelineStep::OutlinerArc => AgentRole::Outliner,
        PipelineStep::OutlinerChapter => AgentRole::Outliner,
        PipelineStep::WriterDraft => AgentRole::Writer,
        PipelineStep::EditorPolish => AgentRole::Editor,
    }
}

/// The phase a step belongs to.
pub open spec fn spec_step_phase(s: PipelineStep) -> PipelinePhase {
    match s {
        PipelineStep::ArchitectConcept => PipelinePhase::Concept,
        PipelineStep::OutlinerArc => PipelinePhase::Outline,
        PipelineStep::OutlinerChapter => PipelinePhase::Outline,
        PipelineStep::WriterDraft => PipelinePhase::Draft,
        PipelineStep::EditorPolish => PipelinePhase::Polish,
    }
}

/// The variant name of a step.
pub open spec fn spec_step_name(s: PipelineStep) -> Seq<char> {
    match s {
        PipelineStep::ArchitectConcept => "ArchitectConcept"@,
        PipelineStep::OutlinerArc => "OutlinerArc"@,
        PipelineStep::OutlinerChapter => "OutlinerChapter"@,
        PipelineStep::WriterDraft => "WriterDraft"@,
        PipelineStep::EditorPolish => "EditorPolish"@,
    }
}

impl PipelineStep {
    /// Chinese display label.
    pub fn label(self) -> (r: &'static str)
        ensures
            r@ == match self {
                PipelineStep::ArchitectConcept => "架构师：搭骨架"@,
                PipelineStep::OutlinerArc => "大纲师：分卷"@,
                PipelineStep::OutlinerChapter => "大纲师：分章"@,
                PipelineStep::WriterDraft => "写手：写正文"@,
                PipelineStep::EditorPolish => "编辑：审校"@,
            },
    {
        match self {
            PipelineStep::ArchitectConcept => "架构师：搭骨架",
            PipelineStep::OutlinerArc => "大纲师：分卷",
            PipelineStep::OutlinerChapter => "大纲师：分章",
            PipelineStep::WriterDraft => "写手：写正文",
            PipelineStep::EditorPolish => "编辑：审校",
        }
    }

    /// The variant name (`ArchitectConcept`, ...).
    pub fn name(self) -> (r: &'static str)
        ensures
            r@ == spec_step_name(self),
    {
        match self {
            PipelineStep::ArchitectConcept => "ArchitectConcept",
            PipelineStep::OutlinerArc => "OutlinerArc",
            PipelineStep::OutlinerChapter => "OutlinerChapter",
            PipelineStep::WriterDraft => "WriterDraft",
            PipelineStep::EditorPolish => "EditorPolish",
        }
    }

    pub fn next(self) -> (r: Option<Self>)
        ensures
            r == spec_step_next(self),
    {
        match self {
            PipelineStep::ArchitectConcept => Some(PipelineStep::OutlinerArc),
            PipelineStep::OutlinerArc => Some(PipelineStep::OutlinerChapter),
            PipelineStep::OutlinerChapter => Some(PipelineStep::WriterDraft),
            PipelineStep::WriterDraft => Some(PipelineStep::EditorPolish),
            PipelineStep::EditorPolish => None,
        }
    }

    pub fn agent(self) -> (r: AgentRole)
        ensures
            r == spec_step_agent(self),
    {
        match self {
            PipelineStep::ArchitectConcept => AgentRole::Architect,
            PipelineStep::OutlinerArc => AgentRole::Outliner,
            PipelineStep::OutlinerChapter => AgentRole::Outliner,
            PipelineStep::WriterDraft => AgentRole::Writer,
            PipelineStep::EditorPolish => AgentRole::Editor,
        }
    }

    pub fn phase(self) -> (r: PipelinePhase)
        ensures
            r == spec_step_phase(self),
    {
        match self {
            PipelineStep::ArchitectConcept => PipelinePhase::Concept,
            PipelineStep::OutlinerArc => PipelinePhase::Outline,
            PipelineStep::OutlinerChapter => PipelinePhase::Outline,
            PipelineStep::WriterDraft => PipelinePhase::Draft,
            PipelineStep::EditorPolish => PipelinePhase::Polish,
        }
    }
}

/// What a pipeline run starts from.
#[derive(Clone, Debug)]
pub struct PipelineInput {
    /// The user's idea.
    pub idea: String,
    pub genre: Genre,
    /// Target chapter count (0 lets the outliner decide).
    pub target_chapters: u32,
    /// The chapter to write (needed in the draft step).
    pub chapter: Option<u32>,
}

/// What a step produced.
#[derive(Clone, Debug)]
pub struct PipelineResult {
    pub step: PipelineStep,
    pub output: String,
    /// Files written.
    pub artifacts: Vec<String>,
}

/// The pipeline for a genre.
#[derive(Clone, Copy, Debug)]
pub struct Pipeline {
    pub genre: Genre,
}

/// The steps of a complete run.
pub open spec fn spec_full_flow() -> Seq<PipelineStep> {
    seq![
        PipelineStep::ArchitectConcept,
        PipelineStep::OutlinerArc,
        PipelineStep::OutlinerChapter,
        PipelineStep::WriterDraft,
        PipelineStep::EditorPolish,
    ]
}

impl Pipeline {
    pub fn new(genre: Genre) -> (r: Self)
        ensures
            r.genre == genre,
    {
        Pipeline { genre }
    }

    /// The steps of a complete run.
    pub fn full_flow() -> (r: Vec<PipelineStep>)
        ensures
            r@ == spec_full_flow(),
    {
        let mut r: Vec<PipelineStep> = Vec::new();
        r.push(PipelineStep::ArchitectConcept);
        r.push(PipelineStep::OutlinerArc);
        r.push(PipelineStep::OutlinerChapter);
        r.push(PipelineStep::WriterDraft);
        r.push(PipelineStep::EditorPolish);
        assert(r@ =~= spec_full_flow());
        r
    }

    /// The quick run: writer then editor.
    pub fn draft_only_flow() -> (r: Vec<PipelineStep>)
        ensures
            r@ == seq![PipelineStep::WriterDraft, PipelineStep::EditorPolish],
    {
        let mut r: Vec<PipelineStep> = Vec::new();
        r.push(PipelineStep::WriterDraft);
        r.push(PipelineStep::EditorPolish);
        assert(r@ =~= seq![PipelineStep::WriterDraft, PipelineStep::EditorPolish]);
        r
    }

    /// The step after `step`.
    pub fn next_step(step: PipelineStep) -> (r: Option<PipelineStep>)
        ensures
            r == spec_step_next(step),
    {
        step.next()
    }
}

/// The complete run visits every step once, each step's successor is the
/// next one in the run, and the last step has none.
pub proof fn law_full_flow_follows_next()
    ensures
        spec_full_flow().len() == 5,
        forall|i: int|
            0 <= i < spec_full_flow().len() - 1 ==> spec_step_next(#[trigger] spec_full_flow()[i])
                == Some(spec_full_flow()[i + 1]),
        spec_step_next(spec_full_flow().last()) is None,
        forall|s: PipelineStep| #[trigger] spec_full_flow().contains(s),
{
    let f = spec_full_flow();
    assert forall|s: PipelineStep| #[trigger] f.contains(s) by {
        match s {
            PipelineStep::ArchitectConcept => assert(f[0] == s),
            PipelineStep::OutlinerArc => assert(f[1] == s),
            PipelineStep::OutlinerChapter => assert(f[2] == s),
            PipelineStep::WriterDraft => assert(f[3] == s),
            PipelineStep::EditorPolish => assert(f[4] == s),
        }
    }
}

/// A step's agent and phase agree (the outliner's steps are exactly the
/// outline phase; no step belongs to the director or the detail phase), and
/// only the editor's step has no successor.
pub proof fn law_steps_agree_with_roles(s: PipelineStep)
    ensures
        (spec_step_agent(s) == AgentRole::Outliner) <==> (spec_step_phase(s) == PipelinePhase::Outline),
        spec_step_agent(s) != AgentRole::Director,
        spec_step_phase(s) != PipelinePhase::Detail,
        spec_step_next(s) is None <==> s == PipelineStep::EditorPolish,
{
}

} // verus!
