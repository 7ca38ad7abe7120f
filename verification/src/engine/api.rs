//! Decisions a frontend submits to the engine, and why a turn was cancelled.
use vstd::prelude::*;

use crate::text::is_text;

verus! {

/// Why the active turn was cancelled.
#[derive(Clone, Copy, Debug, PartialEq, Eq, Structural)]
pub enum CancelReason {
    /// The user cancelled.
    User,
    /// An outside caller cancelled.
    External,
    /// A new turn pre-empted the running one.
    Preempted,
    /// The engine tore the turn down.
    Internal,
}

/// The cancel reason a cancel request names: `external`, `preempted` or
/// `internal`, anything else (or nothing) is the user's.
pub open spec fn spec_cancel_reason(reason: Option<Seq<char>>) -> CancelReason {
    match reason {
        Some(r) => if r == "external"@ {
            CancelReason::External
        } else if r == "preempted"@ {
            CancelReason::Preempted
        } else if r == "internal"@ {
            CancelReason::Internal
        } else {
            CancelReason::User
        },
        None => CancelReason::User,
    }
}

impl CancelReason {
    /// Human-readable description.
    pub fn describe(self) -> (r: &'static str)
        ensures
            r@ == match self {
                CancelReason::User => "user cancelled the request"@,
                CancelReason::External => "request cancelled by external caller"@,
                CancelReason::Preempted => "request was preempted by a new turn"@,
                CancelReason::Internal => "engine torn down before approval resolved"@,
            },
    {
        match self {
            CancelReason::User => "user cancelled the request",
            CancelReason::External => "request cancelled by external caller",
            CancelReason::Preempted => "request was preempted by a new turn",
            CancelReason::Internal => "engine torn down before approval resolved",
        }
    }

    /// The reason of a cancel request that may name one.
    pub fn from_request(reason: Option<&str>) -> (r: Self)
        ensures
            r == spec_cancel_reason(
                match reason {
                    Some(s) => Some(s@),
                    None => None,
                },
            ),
    {
        match reason {
            Some(s) => {
                let v = crate::text::str_to_chars(s);
                if is_text(&v, "external") {
                    CancelReason::External
                } else if is_text(&v, "preempted") {
                    CancelReason::Preempted
                } else if is_text(&v, "internal") {
                    CancelReason::Internal
                } else {
                    CancelReason::User
                }
            },
            None => CancelReason::User,
        }
    }
}

/// A sandbox policy.
#[derive(Clone, Debug)]
pub enum SandboxPolicyPayload {
    /// No restrictions.
    DangerFullAccess,
    /// Read-only access to the whole filesystem.
    ReadOnly,
    /// Already inside an outside sandbox.
    ExternalSandbox { network_access: bool },
    /// Read-only filesystem plus write access to some directories.
    WorkspaceWrite {
        writable_roots: Vec<std::path::PathBuf>,
        network_access: bool,
        exclude_tmpdir: bool,
        exclude_slash_tmp: bool,
    },
}

/// The frontend's decision on a tool call that needs approval.
#[derive(Clone, Debug)]
pub enum ApprovalDecision {
    Approved { id: String },
    Denied { id: String },
    /// Retry with a wider sandbox policy.
    RetryWithPolicy { id: String, policy: SandboxPolicyPayload },
}

/// The frontend's decision on a request for user input.
#[derive(Clone, Debug)]
pub enum UserInputDecision {
    Submitted { id: String, response: UserInputResponsePayload },
    Cancelled { id: String },
}

/// The answers to a request for user input.
#[derive(Clone, Debug)]
pub struct UserInputResponsePayload {
    pub answers: Vec<UserInputAnswerPayload>,
}

/// One answer.
#[derive(Clone, Debug)]
pub struct UserInputAnswerPayload {
    pub id: String,
    pub label: String,
    pub value: String,
}

} // verus!
