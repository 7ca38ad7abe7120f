//! The operations, events and settings that flow between a frontend and the
//! engine, independent of any UI.
pub mod api;
pub mod events;
pub mod ops;

use vstd::prelude::*;

use crate::text::{is_text, lemma_setting_key_plain, setting_key, setting_key_of};

verus! {

// ---------------------------------------------------------------------------
// AppMode
// ---------------------------------------------------------------------------

/// Application modes.
#[derive(Clone, Copy, Debug, PartialEq, Eq, Structural)]
pub enum AppMode {
    Agent,
    Yolo,
    Plan,
    /// Long-form web-novel writing mode.
    Novel,
}

/// The settings value of a mode.
pub open spec fn spec_as_setting(m: AppMode) -> Seq<char> {
    match m {
        AppMode::Agent => "agent"@,
        AppMode::Yolo => "yolo"@,
        AppMode::Plan => "plan"@,
        AppMode::Novel => "novel"@,
    }
}

/// The mode a settings value names: `plan`, `yolo` or `novel` after
/// trimming and ASCII lower-casing, anything else is `Agent`.
pub open spec fn spec_from_setting(v: Seq<char>) -> AppMode {
    let k = setting_key(v);
    if k == "plan"@ {
        AppMode::Plan
    } else if k == "yolo"@ {
        AppMode::Yolo
    } else if k == "novel"@ {
        AppMode::Novel
    } else {
        AppMode::Agent
    }
}

impl AppMode {
    /// Parses a mode from a settings value.
    pub fn from_setting(value: &str) -> (r: Self)
        ensures
            r == spec_from_setting(value@),
    {
        let k = setting_key_of(value);
        if is_text(&k, "plan") {
            AppMode::Plan
        } else if is_text(&k, "yolo") {
            AppMode::Yolo
        } else if is_text(&k, "novel") {
            AppMode::Novel
        } else {
            AppMode::Agent
        }
    }

    /// The settings value of this mode.
    pub fn as_setting(self) -> (r: &'static str)
        ensures
            r@ == spec_as_setting(self),
    {
        match self {
            AppMode::Agent => "agent",
            AppMode::Yolo => "yolo",
            AppMode::Plan => "plan",
            AppMode::Novel => "novel",
        }
    }

    /// Short label for the UI footer.
    pub fn label(self) -> (r: &'static str)
        ensures
            r@ == match self {
                AppMode::Agent => "AGENT"@,
                AppMode::Yolo => "YOLO"@,
                AppMode::Plan => "PLAN"@,
                AppMode::Novel => "NOVEL"@,
            },
    {
        match self {
            AppMode::Agent => "AGENT",
            AppMode::Yolo => "YOLO",
            AppMode::Plan => "PLAN",
            AppMode::Novel => "NOVEL",
        }
    }

    /// Description for help or onboarding text.
    pub fn description(self) -> (r: &'static str)
        ensures
            r@ == match self {
                AppMode::Agent => "Agent mode - autonomous task execution with tools"@,
                AppMode::Yolo => "YOLO mode - full tool access without approvals"@,
                AppMode::Plan => "Plan mode - design before implementing"@,
                AppMode::Novel => "Novel mode - long-form web novel writing assistant"@,
            },
    {
        match self {
            AppMode::Agent => "Agent mode - autonomous task execution with tools",
            AppMode::Yolo => "YOLO mode - full tool access without approvals",
            AppMode::Plan => "Plan mode - design before implementing",
            AppMode::Novel => "Novel mode - long-form web novel writing assistant",
        }
    }
}

/// Reading back the settings value of a mode gives the mode.
pub proof fn law_mode_setting_round_trip(m: AppMode)
    ensures
        spec_from_setting(spec_as_setting(m)) == m,
{
    reveal_strlit("agent");
    reveal_strlit("yolo");
    reveal_strlit("plan");
    reveal_strlit("novel");
    lemma_setting_key_plain(spec_as_setting(m));
}

// ---------------------------------------------------------------------------
// ApprovalMode
// ---------------------------------------------------------------------------

/// When tool executions need the user's approval.
#[derive(Clone, Copy, Debug, PartialEq, Eq, Structural)]
pub enum ApprovalMode {
    /// Approve every tool automatically.
    Auto,
    /// Ask for tools that are not safe.
    Suggest,
    /// Never run tools that need approval.
    Never,
}

impl Default for ApprovalMode {
    fn default() -> (r: Self)
        ensures
            r == ApprovalMode::Suggest,
    {
        ApprovalMode::Suggest
    }
}

/// The approval mode a configuration value names, if any.
pub open spec fn spec_approval_from_config(v: Seq<char>) -> Option<ApprovalMode> {
    let k = setting_key(v);
    if k == "auto"@ {
        Some(ApprovalMode::Auto)
    } else if k == "suggest"@ || k == "suggested"@ || k == "on-request"@ || k == "untrusted"@ {
        Some(ApprovalMode::Suggest)
    } else if k == "never"@ || k == "deny"@ || k == "denied"@ {
        Some(ApprovalMode::Never)
    } else {
        None
    }
}

impl ApprovalMode {
    pub fn label(self) -> (r: &'static str)
        ensures
            r@ == match self {
                ApprovalMode::Auto => "AUTO"@,
                ApprovalMode::Suggest => "SUGGEST"@,
                ApprovalMode::Never => "NEVER"@,
            },
    {
        match self {
            ApprovalMode::Auto => "AUTO",
            ApprovalMode::Suggest => "SUGGEST",
            ApprovalMode::Never => "NEVER",
        }
    }

    /// Parses a configuration value.
    pub fn from_config_value(value: &str) -> (r: Option<Self>)
        ensures
            r == spec_approval_from_config(value@),
    {
        let k = setting_key_of(value);
        if is_text(&k, "auto") {
            Some(ApprovalMode::Auto)
        } else if is_text(&k, "suggest") || is_text(&k, "suggested") || is_text(&k, "on-request")
            || is_text(&k, "untrusted") {
            Some(ApprovalMode::Suggest)
        } else if is_text(&k, "never") || is_text(&k, "deny") || is_text(&k, "denied") {
            Some(ApprovalMode::Never)
        } else {
            None
        }
    }
}

// ---------------------------------------------------------------------------
// ToolErrorPayload, TurnOutcomeStatus, NotificationKind
// ---------------------------------------------------------------------------

/// A tool error in a form that can cross a process boundary.
#[derive(Clone, Debug)]
pub enum ToolErrorPayload {
    InvalidInput { message: String },
    MissingField { field: String },
    PathEscape { path: String },
    ExecutionFailed { message: String },
    Timeout { seconds: u64 },
    NotAvailable { message: String },
    PermissionDenied { message: String },
}

#[derive(Clone, Copy, Debug, PartialEq, Eq, Structural)]
pub enum TurnOutcomeStatus {
    Completed,
    Interrupted,
    Failed,
}

/// Notifications the frontend surfaces in its own way.
#[derive(Clone, Copy, Debug, PartialEq, Eq, Structural)]
pub enum NotificationKind {
    TaskbarBusy,
    TaskbarIdle,
    TitleAnimationStart,
    TitleAnimationStop,
}

/// The variant name of a notification kind in lower case.
pub open spec fn spec_notification_id(k: NotificationKind) -> Seq<char> {
    match k {
        NotificationKind::TaskbarBusy => "taskbarbusy"@,
        NotificationKind::TaskbarIdle => "taskbaridle"@,
        NotificationKind::TitleAnimationStart => "titleanimationstart"@,
        NotificationKind::TitleAnimationStop => "titleanimationstop"@,
    }
}

impl NotificationKind {
    /// The variant name in lower case (`taskbarbusy`, ...).
    pub fn id(self) -> (r: &'static str)
        ensures
            r@ == spec_notification_id(self),
    {
        match self {
            NotificationKind::TaskbarBusy => "taskbarbusy",
            NotificationKind::TaskbarIdle => "taskbaridle",
            NotificationKind::TitleAnimationStart => "titleanimationstart",
            NotificationKind::TitleAnimationStop => "titleanimationstop",
        }
    }
}

} // verus!
