//! The novel's domain model: genres, platforms, creation stages, world
//! settings, characters and narrative node kinds.
use vstd::prelude::*;

verus! {

/// Genre of a novel.
#[derive(Clone, Copy, Debug, PartialEq, Eq, Structural)]
pub enum Genre {
    Xianxia,
    Urban,
    SciFi,
    Fantasy,
    Historical,
    Romance,
    Suspense,
    Other,
}

/// Platform a novel is written for.
#[derive(Clone, Copy, Debug, PartialEq, Eq, Structural)]
pub enum TargetPlatform {
    Qidian,
    Zongheng,
    Fanqie,
    Jinjiang,
    Web,
    Other,
}

/// Lifecycle of a chapter.
#[derive(Clone, Copy, Debug, PartialEq, Eq, Structural)]
pub enum ChapterStatus {
    Planned,
    Outlined,
    Drafting,
    Completed,
    Published,
}

/// Role a chapter plays in the outline.
#[derive(Clone, Copy, Debug, PartialEq, Eq, Structural)]
pub enum NarrativeNodeType {
    Hook,
    Setup,
    Conflict,
    Climax,
    Twist,
    Payoff,
    Exposition,
    Resolution,
}

/// Kind of story arc.
#[derive(Clone, Copy, Debug, PartialEq, Eq, Structural)]
pub enum ArcType {
    MainLine,
    SideQuest,
    CharacterArc,
    Filler,
}

/// A character sheet.
#[derive(Clone, Debug)]
pub struct Character {
    pub name: String,
    pub aliases: Vec<String>,
    pub age: Option<u32>,
    pub appearance: Option<String>,
    pub personality: Option<String>,
    pub background: Option<String>,
    pub goals: Vec<String>,
    pub relationships: Vec<CharacterRelationship>,
    pub status: CharacterStatus,
}

/// Whether a character is still in the story.
#[derive(Clone, Copy, Debug, PartialEq, Eq, Structural)]
pub enum CharacterStatus {
    Alive,
    Dead,
    Missing,
    Unknown,
}

/// A relationship from one character to another.
#[derive(Clone, Debug)]
pub struct CharacterRelationship {
    pub target_name: String,
    pub relation_type: String,
    pub description: Option<String>,
}

/// One world-building fact.
#[derive(Clone, Debug)]
pub struct WorldSetting {
    pub key: String,
    pub value: String,
    pub category: WorldCategory,
    pub source_chapter: Option<u32>,
    pub immutable: bool,
}

/// Area of world building a setting belongs to.
#[derive(Clone, Copy, Debug, PartialEq, Eq, Structural)]
pub enum WorldCategory {
    Geography,
    History,
    Culture,
    MagicSystem,
    Technology,
    Politics,
    Economy,
    Other,
}

/// Stage of the creation workflow: concept → outline → detail → draft → polish.
#[derive(Clone, Copy, Debug, PartialEq, Eq, Structural)]
pub enum CreationStage {
    Concept,
    Outline,
    Detail,
    Draft,
    Polish,
}

/// A refused stage change.
#[derive(Clone, Copy, Debug, PartialEq, Eq, Structural)]
pub enum StageTransitionError {
    InvalidTransition { from: CreationStage, to: CreationStage },
}

/// Position of a stage in the workflow.
pub open spec fn stage_index(s: CreationStage) -> int {
    match s {
        CreationStage::Concept => 0,
        CreationStage::Outline => 1,
        CreationStage::Detail => 2,
        CreationStage::Draft => 3,
        CreationStage::Polish => 4,
    }
}

/// A stage may stay where it is or move exactly one step forward.
pub open spec fn spec_can_transition(from: CreationStage, to: CreationStage) -> bool {
    from == to || stage_index(to) == stage_index(from) + 1
}

impl Default for CreationStage {
    fn default() -> (r: Self)
        ensures
            r == CreationStage::Concept,
    {
        CreationStage::Concept
    }
}

impl CreationStage {
    /// Whether moving from `self` to `next` is allowed.
    pub fn can_transition_to(&self, next: &CreationStage) -> (r: bool)
        ensures
            r == spec_can_transition(*self, *next),
    {
        match (self, next) {
            (CreationStage::Concept, CreationStage::Outline) => true,
            (CreationStage::Outline, CreationStage::Detail) => true,
            (CreationStage::Detail, CreationStage::Draft) => true,
            (CreationStage::Draft, CreationStage::Polish) => true,
            (s1, s2) => *s1 == *s2,
        }
    }

    /// Moves to `next` when allowed, else reports both stages.
    pub fn try_transition(&self, next: CreationStage) -> (r: Result<
        CreationStage,
        StageTransitionError,
    >)
        ensures
            spec_can_transition(*self, next) ==> r == Ok::<CreationStage, StageTransitionError>(
                next,
            ),
            !spec_can_transition(*self, next) ==> r == Err::<CreationStage, StageTransitionError>(
                StageTransitionError::InvalidTransition { from: *self, to: next },
            ),
    {
        if self.can_transition_to(&next) {
            Ok(next)
        } else {
            Err(StageTransitionError::InvalidTransition { from: *self, to: next })
        }
    }
}

/// An allowed stage change never moves backwards, and moves at most one
/// step forward.
pub proof fn law_stage_transitions_are_forward_steps(from: CreationStage, to: CreationStage)
    requires
        spec_can_transition(from, to),
    ensures
        stage_index(from) <= stage_index(to) <= stage_index(from) + 1,
{
}

/// Every stage may stay where it is.
pub proof fn law_stage_transition_reflexive(s: CreationStage)
    ensures
        spec_can_transition(s, s),
{
}

/// The workflow is the chain Concept → Outline → Detail → Draft → Polish:
/// each single step is allowed, skipping a stage is not, and nothing follows
/// Polish.
pub proof fn law_stage_chain_reaches_polish()
    ensures
        spec_can_transition(CreationStage::Concept, CreationStage::Outline),
        spec_can_transition(CreationStage::Outline, CreationStage::Detail),
        spec_can_transition(CreationStage::Detail, CreationStage::Draft),
        spec_can_transition(CreationStage::Draft, CreationStage::Polish),
        !spec_can_transition(CreationStage::Concept, CreationStage::Detail),
        forall|s: CreationStage| !spec_can_transition(CreationStage::Polish, s) || s
            == CreationStage::Polish,
{
}

} // verus!
