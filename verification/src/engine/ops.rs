//! Operations a frontend submits to the engine.
use vstd::prelude::*;

use crate::engine::{AppMode, ApprovalMode};
use crate::text::{chars_to_string, push_str, str_to_chars};

verus! {

/// Prefix of the tool-call ids of local shell shortcuts.
pub const USER_SHELL_TOOL_ID_PREFIX: &'static str = "user_shell_";

/// Compaction settings.
#[derive(Clone, Debug)]
pub struct CompactionConfigPayload {
    pub enabled: bool,
    pub token_threshold: usize,
    pub model: String,
    pub cache_summary: bool,
}

/// Operations submitted to the engine.
#[derive(Clone, Debug)]
pub enum EngineOp {
    /// Send a message to the model.
    SendMessage {
        content: String,
        mode: AppMode,
        model: String,
        goal_objective: Option<String>,
        /// `"off" | "low" | "medium" | "high" | "max"`, or the provider's default.
        reasoning_effort: Option<String>,
        reasoning_effort_auto: bool,
        auto_model: bool,
        allow_shell: bool,
        trust_mode: bool,
        auto_approve: bool,
        approval_mode: ApprovalMode,
        translation_enabled: bool,
        show_thinking: bool,
        /// Tool restriction; `None` allows the normal tool set.
        allowed_tools: Option<Vec<String>>,
        hook_executor_name: Option<String>,
    },
    /// Run a composer shell command without a model turn.
    RunShellCommand {
        command: String,
        mode: AppMode,
        trust_mode: bool,
        auto_approve: bool,
        approval_mode: ApprovalMode,
    },
    CancelRequest,
    ApproveToolCall { id: String },
    DenyToolCall { id: String },
    SpawnSubAgent { prompt: String },
    ListSubAgents,
    ChangeMode { mode: AppMode },
    SetModel { model: String, mode: AppMode },
    SetCompaction { config: CompactionConfigPayload },
    /// Sync the engine's session state (resume / load).
    SyncSession {
        session_id: Option<String>,
        messages: serde_json::Value,
        system_prompt: serde_json::Value,
        system_prompt_override: bool,
        model: String,
        workspace: std::path::PathBuf,
    },
    CompactContext,
    PurgeContext,
    /// Replace the last exchange and send again.
    EditLastTurn { new_message: String },
    Shutdown,
}


/// What the engine's task does with an operation before its runtime sees
/// it.
#[derive(Clone, Debug)]
pub enum OpDisposition {
    /// Stop the task.
    Stop,
    /// Cancel the running turn (the user's reason) and report `cancelled`.
    Cancel,
    /// Report this status line and take the next operation.
    Report(String),
    /// Hand the operation to the runtime.
    Forward,
}

/// The status line reporting an approval decision on tool call `id`.
pub open spec fn decision_status(approved: bool, id: Seq<char>) -> Seq<char> {
    (if approved {
        "approval approved: "@
    } else {
        "approval denied: "@
    }) + id
}

/// The engine task's decision on `op`: shut down, cancel, report an
/// approval decision, or forward it to the runtime.
pub fn dispose_op(op: &EngineOp) -> (r: OpDisposition)
    ensures
        match op {
            EngineOp::Shutdown => r is Stop,
            EngineOp::CancelRequest => r is Cancel,
            EngineOp::ApproveToolCall { id } => r matches OpDisposition::Report(m) && m@ == decision_status(
                true,
                id@,
            ),
            EngineOp::DenyToolCall { id } => r matches OpDisposition::Report(m) && m@ == decision_status(
                false,
                id@,
            ),
            _ => r is Forward,
        },
{
    match op {
        EngineOp::Shutdown => OpDisposition::Stop,
        EngineOp::CancelRequest => OpDisposition::Cancel,
        EngineOp::ApproveToolCall { id } => {
            let mut v = str_to_chars("approval approved: ");
            push_str(&mut v, id.as_str());
            OpDisposition::Report(chars_to_string(&v))
        },
        EngineOp::DenyToolCall { id } => {
            let mut v = str_to_chars("approval denied: ");
            push_str(&mut v, id.as_str());
            OpDisposition::Report(chars_to_string(&v))
        },
        _ => OpDisposition::Forward,
    }
}

} // verus!
