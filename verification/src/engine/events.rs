//! Payload types of the events the engine emits.
use vstd::prelude::*;

verus! {

/// Broad category of an error.
#[derive(Clone, Copy, Debug, PartialEq, Eq, Structural)]
pub enum ErrorCategory {
    Network,
    Authentication,
    Authorization,
    RateLimit,
    Timeout,
    InvalidInput,
    Parse,
    Tool,
    State,
    Internal,
}

/// Severity hint for UI and logs.
#[derive(Clone, Copy, Debug, PartialEq, Eq, Structural)]
pub enum ErrorSeverity {
    Info,
    Warning,
    Error,
    Critical,
}

/// An error as it crosses subsystem boundaries.
#[derive(Clone, Debug)]
pub struct ErrorEnvelope {
    pub category: ErrorCategory,
    pub severity: ErrorSeverity,
    pub recoverable: bool,
    pub code: String,
    pub message: String,
}

/// The user-facing ladder of session health.
#[derive(Clone, Copy, Debug, PartialEq, Eq, Structural)]
pub enum CoherenceState {
    Healthy,
    GettingCrowded,
    RefreshingContext,
    VerifyingRecentWork,
    ResettingPlan,
}

impl Default for CoherenceState {
    fn default() -> (r: Self)
        ensures
            r == CoherenceState::Healthy,
    {
        CoherenceState::Healthy
    }
}

} // verus!
