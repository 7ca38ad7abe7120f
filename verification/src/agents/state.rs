//! The pipeline record: which step a run is at, and what it has done.
use vstd::prelude::*;

use super::pipeline::{spec_step_agent, spec_step_phase, PipelineStep};
use super::roles::AgentRole;
use crate::model::Genre;
use crate::text::{chars_to_string, decimal, push_decimal, push_str};

verus! {

/// Where the pipeline record lives under the project root.
pub const PIPELINE_PATH: &'static str = ".novelwhale/pipeline.json";

/// Phase of the pipeline.
#[derive(Clone, Copy, Debug, PartialEq, Eq, Structural, Hash)]
pub enum PipelinePhase {
    Concept,
    Outline,
    Detail,
    Draft,
    Polish,
}

pub open spec fn spec_phase_label(p: PipelinePhase) -> Seq<char> {
    match p {
        PipelinePhase::Concept => "概念"@,
        PipelinePhase::Outline => "大纲"@,
        PipelinePhase::Detail => "细纲"@,
        PipelinePhase::Draft => "正文"@,
        PipelinePhase::Polish => "润色"@,
    }
}

pub open spec fn spec_phase_id(p: PipelinePhase) -> Seq<char> {
    match p {
        PipelinePhase::Concept => "concept"@,
        PipelinePhase::Outline => "outline"@,
        PipelinePhase::Detail => "detail"@,
        PipelinePhase::Draft => "draft"@,
        PipelinePhase::Polish => "polish"@,
    }
}

impl PipelinePhase {
    /// Chinese display label.
    pub fn label(self) -> (r: &'static str)
        ensures
            r@ == spec_phase_label(self),
    {
        match self {
            PipelinePhase::Concept => "概念",
            PipelinePhase::Outline => "大纲",
            PipelinePhase::Detail => "细纲",
            PipelinePhase::Draft => "正文",
            PipelinePhase::Polish => "润色",
        }
    }

    /// The variant name in lower case.
    pub fn id(self) -> (r: &'static str)
        ensures
            r@ == spec_phase_id(self),
    {
        match self {
            PipelinePhase::Concept => "concept",
            PipelinePhase::Outline => "outline",
            PipelinePhase::Detail => "detail",
            PipelinePhase::Draft => "draft",
            PipelinePhase::Polish => "polish",
        }
    }
}

/// Status of the current step.
#[derive(Clone, Copy, Debug, PartialEq, Eq, Structural, Hash)]
pub enum PipelineStatus {
    Pending,
    Running,
    Done,
    Failed,
    NeedsHumanInput,
}

/// `SystemTime::now().duration_since(UNIX_EPOCH)`: the whole seconds and the
/// nanoseconds past them, both 0 when the clock is before the epoch. Of the
/// value only that the nanoseconds are a fraction of a second is stated; the
/// rest is the time.
#[verifier::external_body]
pub(crate) fn unix_now() -> (r: (u64, u32))
    ensures
        r.1 < 1_000_000_000,
{
    match std::time::SystemTime::now().duration_since(std::time::UNIX_EPOCH) {
        Ok(d) => (d.as_secs(), d.subsec_nanos()),
        Err(_) => (0, 0),
    }
}

/// A time stamp `epoch:<seconds>`.
pub open spec fn is_epoch_stamp(t: Seq<char>) -> bool {
    exists|secs: u64| t == "epoch:"@ + decimal(secs as nat)
}

/// The current time as `epoch:<seconds>`.
pub fn now_iso8601() -> (r: String)
    ensures
        is_epoch_stamp(r@),
{
    let (secs, _) = unix_now();
    let mut v: Vec<char> = Vec::new();
    push_str(&mut v, "epoch:");
    push_decimal(&mut v, secs);
    assert(v@ =~= "epoch:"@ + decimal(secs as nat));
    chars_to_string(&v)
}

/// Where a pipeline run stands.
#[derive(Clone, Debug)]
pub struct PipelineRecord {
    /// The chapter being worked on (none during outlining).
    pub chapter: Option<u32>,
    pub genre: Genre,
    pub phase: PipelinePhase,
    pub step: PipelineStep,
    pub status: PipelineStatus,
    /// The agent in charge.
    pub current_agent: AgentRole,
    pub completed_steps: Vec<PipelineStep>,
    /// A short description of the last artifact.
    pub last_artifact_summary: String,
    pub updated_at: String,
}

impl PipelineRecord {
    /// A fresh record at the first step.
    pub fn new(genre: Genre) -> (r: Self)
        ensures
            r.chapter is None,
            r.genre == genre,
            r.phase == PipelinePhase::Concept,
            r.step == PipelineStep::ArchitectConcept,
            r.status == PipelineStatus::Pending,
            r.current_agent == AgentRole::Architect,
            r.completed_steps@.len() == 0,
            r.last_artifact_summary@ == Seq::<char>::empty(),
            is_epoch_stamp(r.updated_at@),
    {
        PipelineRecord {
            chapter: None,
            genre,
            phase: PipelinePhase::Concept,
            step: PipelineStep::ArchitectConcept,
            status: PipelineStatus::Pending,
            current_agent: AgentRole::Architect,
            completed_steps: Vec::new(),
            last_artifact_summary: String::new(),
            updated_at: now_iso8601(),
        }
    }

    /// Moves the record to `step`: its agent and phase come with it.
    pub fn set_step(&mut self, step: PipelineStep)
        ensures
            final(self).step == step,
            final(self).current_agent == spec_step_agent(step),
            final(self).phase == spec_step_phase(step),
            final(self).chapter == old(self).chapter,
            final(self).genre == old(self).genre,
            final(self).status == old(self).status,
            final(self).completed_steps == old(self).completed_steps,
            final(self).last_artifact_summary == old(self).last_artifact_summary,
            final(self).updated_at == old(self).updated_at,
    {
        self.step = step;
        self.current_agent = step.agent();
        self.phase = step.phase();
    }
}

} // verus!
