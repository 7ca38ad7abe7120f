//! The agent roles.
use vstd::prelude::*;

verus! {

/// A role in the writing pipeline.
#[derive(Clone, Copy, Debug, PartialEq, Eq, Structural, Hash)]
pub enum AgentRole {
    /// Runs the whole flow.
    Director,
    /// Core conflict, world and characters.
    Architect,
    /// Volume and chapter outlines.
    Outliner,
    /// Chapter text.
    Writer,
    /// Review, de-AI, consistency.
    Editor,
}

pub open spec fn spec_role_label(r: AgentRole) -> Seq<char> {
    match r {
        AgentRole::Director => "主编"@,
        AgentRole::Architect => "架构师"@,
        AgentRole::Outliner => "大纲师"@,
        AgentRole::Writer => "写手"@,
        AgentRole::Editor => "编辑"@,
    }
}

/// The variant name of a role in lower case.
pub open spec fn spec_role_id(r: AgentRole) -> Seq<char> {
    match r {
        AgentRole::Director => "director"@,
        AgentRole::Architect => "architect"@,
        AgentRole::Outliner => "outliner"@,
        AgentRole::Writer => "writer"@,
        AgentRole::Editor => "editor"@,
    }
}

impl AgentRole {
    /// Chinese display label.
    pub fn label(self) -> (r: &'static str)
        ensures
            r@ == spec_role_label(self),
    {
        match self {
            AgentRole::Director => "主编",
            AgentRole::Architect => "架构师",
            AgentRole::Outliner => "大纲师",
            AgentRole::Writer => "写手",
            AgentRole::Editor => "编辑",
        }
    }

    /// The variant name in lower case (`director`, ...).
    pub fn id(self) -> (r: &'static str)
        ensures
            r@ == spec_role_id(self),
    {
        match self {
            AgentRole::Director => "director",
            AgentRole::Architect => "architect",
            AgentRole::Outliner => "outliner",
            AgentRole::Writer => "writer",
            AgentRole::Editor => "editor",
        }
    }
}

/// One output of an agent.
#[derive(Clone, Debug)]
pub struct AgentTurn {
    pub agent: AgentRole,
    pub phase: String,
    /// What the turn wrote (explanation, list, JSON, ...).
    pub content: String,
    /// Tool calls and file paths it refers to.
    pub artifacts: Vec<String>,
}

} // verus!
