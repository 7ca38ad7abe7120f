//! What every novel tool shares: capabilities, approval, errors, results and
//! the context a tool runs in.
use vstd::prelude::*;

use crate::foreign::{display_path, join_path, path_display, path_joined};
use crate::text::{chars_to_string, decimal, push_decimal, push_str, str_to_chars};

verus! {

/// A cancellation flag shared by all clones of a token.
#[derive(Clone, Debug)]
pub struct CancellationToken {
    cancelled: std::sync::Arc<std::sync::atomic::AtomicBool>,
}

impl CancellationToken {
    /// A token that is not cancelled.
    pub fn new() -> (r: Self) {
        CancellationToken {
            cancelled: std::sync::Arc::new(std::sync::atomic::AtomicBool::new(false)),
        }
    }

    /// Cancels the token and all its clones.
    pub fn cancel(&self) {
        self.cancelled.store(true, std::sync::atomic::Ordering::SeqCst);
    }

    /// Whether the token has been cancelled.
    pub fn is_cancelled(&self) -> (r: bool) {
        self.cancelled.load(std::sync::atomic::Ordering::SeqCst)
    }
}

impl Default for CancellationToken {
    fn default() -> (r: Self) {
        CancellationToken::new()
    }
}

/// What a tool may do.
#[derive(Clone, Copy, Debug, PartialEq, Eq, Structural, Hash)]
pub enum ToolCapability {
    ReadOnly,
    WritesFiles,
    ExecutesCode,
    Network,
    Sandboxable,
    RequiresApproval,
}

/// When a tool needs the user's approval.
#[derive(Clone, Copy, Debug, PartialEq, Eq, Structural)]
pub enum ApprovalRequirement {
    /// Safe read-only operations.
    Auto,
    /// The user may skip.
    Suggest,
    /// Always ask.
    Required,
}

impl Default for ApprovalRequirement {
    fn default() -> (r: Self)
        ensures
            r == ApprovalRequirement::Auto,
    {
        ApprovalRequirement::Auto
    }
}

/// The capabilities of a tool that writes into the workspace.
pub fn write_capabilities() -> (r: Vec<ToolCapability>)
    ensures
        r@ == seq![ToolCapability::WritesFiles, ToolCapability::Sandboxable],
{
    let mut r: Vec<ToolCapability> = Vec::new();
    r.push(ToolCapability::WritesFiles);
    r.push(ToolCapability::Sandboxable);
    assert(r@ =~= seq![ToolCapability::WritesFiles, ToolCapability::Sandboxable]);
    r
}

/// The capabilities of a read-only tool.
pub fn readonly_capabilities() -> (r: Vec<ToolCapability>)
    ensures
        r@ == seq![ToolCapability::ReadOnly, ToolCapability::Sandboxable],
{
    let mut r: Vec<ToolCapability> = Vec::new();
    r.push(ToolCapability::ReadOnly);
    r.push(ToolCapability::Sandboxable);
    assert(r@ =~= seq![ToolCapability::ReadOnly, ToolCapability::Sandboxable]);
    r
}

/// The approval most novel tools ask for.
pub fn suggest_approval() -> (r: ApprovalRequirement)
    ensures
        r == ApprovalRequirement::Suggest,
{
    ApprovalRequirement::Suggest
}

/// Errors of tool execution.
#[derive(Clone, Debug)]
pub enum ToolError {
    InvalidInput { message: String },
    MissingField { field: String },
    PathEscape { path: std::path::PathBuf },
    ExecutionFailed { message: String },
    Timeout { seconds: u64 },
    NotAvailable { message: String },
    PermissionDenied { message: String },
}

impl ToolError {
    pub fn invalid_input(msg: String) -> (r: Self)
        ensures
            r matches ToolError::InvalidInput { message } && message == msg,
    {
        ToolError::InvalidInput { message: msg }
    }

    pub fn missing_field(field: String) -> (r: Self)
        ensures
            r matches ToolError::MissingField { field: f } && f == field,
    {
        ToolError::MissingField { field }
    }

    pub fn execution_failed(msg: String) -> (r: Self)
        ensures
            r matches ToolError::ExecutionFailed { message } && message == msg,
    {
        ToolError::ExecutionFailed { message: msg }
    }
}

/// The message of a tool error.
pub open spec fn tool_error_text(e: ToolError) -> Seq<char> {
    match e {
        ToolError::InvalidInput { message } => "Failed to validate input: "@ + message@,
        ToolError::MissingField { field } => "Failed to validate input: missing required field '"@
            + field@ + "'"@,
        ToolError::PathEscape { path } => "Failed to resolve path '"@ + path_display(path)
            + "': path escapes workspace"@,
        ToolError::ExecutionFailed { message } => "Failed to execute tool: "@ + message@,
        ToolError::Timeout { seconds } => "Failed to execute tool: operation timed out after "@
            + decimal(seconds as nat) + "s"@,
        ToolError::NotAvailable { message } => "Failed to locate tool: "@ + message@,
        ToolError::PermissionDenied { message } => "Failed to authorize tool execution: "@
            + message@,
    }
}

impl ToolError {
    /// The error's message.
    pub fn text(&self) -> (r: String)
        ensures
            r@ == tool_error_text(*self),
    {
        let mut v: Vec<char> = Vec::new();
        match self {
            ToolError::InvalidInput { message } => {
                push_str(&mut v, "Failed to validate input: ");
                push_str(&mut v, message.as_str());
            },
            ToolError::MissingField { field } => {
                push_str(&mut v, "Failed to validate input: missing required field '");
                push_str(&mut v, field.as_str());
                push_str(&mut v, "'");
            },
            ToolError::PathEscape { path } => {
                push_str(&mut v, "Failed to resolve path '");
                let shown = display_path(path);
                push_str(&mut v, shown.as_str());
                push_str(&mut v, "': path escapes workspace");
            },
            ToolError::ExecutionFailed { message } => {
                push_str(&mut v, "Failed to execute tool: ");
                push_str(&mut v, message.as_str());
            },
            ToolError::Timeout { seconds } => {
                push_str(&mut v, "Failed to execute tool: operation timed out after ");
                push_decimal(&mut v, *seconds);
                push_str(&mut v, "s");
            },
            ToolError::NotAvailable { message } => {
                push_str(&mut v, "Failed to locate tool: ");
                push_str(&mut v, message.as_str());
            },
            ToolError::PermissionDenied { message } => {
                push_str(&mut v, "Failed to authorize tool execution: ");
                push_str(&mut v, message.as_str());
            },
        }
        assert(v@ =~= tool_error_text(*self));
        chars_to_string(&v)
    }
}

/// `items` joined by `sep`.
pub open spec fn joined(items: Seq<Seq<char>>, sep: Seq<char>) -> Seq<char>
    decreases items.len(),
{
    if items.len() == 0 {
        Seq::empty()
    } else if items.len() == 1 {
        items[0]
    } else {
        joined(items.drop_last(), sep) + sep + items.last()
    }
}

pub open spec fn string_views(v: Seq<String>) -> Seq<Seq<char>> {
    Seq::new(v.len(), |i: int| v[i]@)
}

/// Appends `items` joined by `sep`.
pub fn push_joined(out: &mut Vec<char>, items: &Vec<String>, sep: &str)
    ensures
        final(out)@ == old(out)@ + joined(string_views(items@), sep@),
{
    let ghost start = out@;
    let ghost iv = string_views(items@);
    for i in 0..items.len()
        invariant
            iv == string_views(items@),
            out@ == start + joined(iv.take(i as int), sep@),
    {
        assert(iv.take(i + 1).drop_last() =~= iv.take(i as int));
        if i > 0 {
            push_str(out, sep);
        }
        push_str(out, items[i].as_str());
        assert(out@ =~= start + joined(iv.take(i + 1), sep@));
    }
    assert(iv.take(iv.len() as int) =~= iv);
}

/// The error of a missing required field: `MissingField` when the input
/// names no fields, otherwise `InvalidInput` listing the fields it has.
pub open spec fn missing_field_error(field: Seq<char>, provided: Seq<Seq<char>>) -> (bool, Seq<char>) {
    if provided.len() == 0 {
        (false, field)
    } else {
        (true, "missing required field '"@ + field + "'. Input provided: "@ + joined(provided, ", "@))
    }
}

/// The error for a required field `field` missing from an input whose
/// fields are `provided`.
pub fn missing_field(field: &str, provided: &Vec<String>) -> (r: ToolError)
    ensures
        missing_field_error(field@, string_views(provided@)).0 ==> (r matches ToolError::InvalidInput {
            message,
        } && message@ == missing_field_error(field@, string_views(provided@)).1),
        !missing_field_error(field@, string_views(provided@)).0 ==> (r matches ToolError::MissingField {
            field: f,
        } && f@ == field@),
{
    if provided.len() == 0 {
        ToolError::missing_field(chars_to_string(&str_to_chars(field)))
    } else {
        let mut v: Vec<char> = Vec::new();
        push_str(&mut v, "missing required field '");
        push_str(&mut v, field);
        push_str(&mut v, "'. Input provided: ");
        push_joined(&mut v, provided, ", ");
        assert(v@ =~= missing_field_error(field@, string_views(provided@)).1);
        ToolError::invalid_input(chars_to_string(&v))
    }
}

/// The text `serde_json::to_string_pretty` writes for a JSON value.
pub uninterp spec fn pretty_json(v: serde_json::Value) -> Seq<char>;

/// `serde_json::to_string_pretty(v)` on a JSON value: it succeeds (it writes
/// into a `Vec`, and a JSON value has only text map keys), giving the text
/// named `pretty_json(v)`.
#[verifier::external_body]
fn to_string_pretty(v: &serde_json::Value) -> (r: Result<String, serde_json::Error>)
    ensures
        r is Ok,
        r matches Ok(s) ==> s@ == pretty_json(*v),
{
    serde_json::to_string_pretty(v)
}

/// The result of a tool call.
#[derive(Clone, Debug)]
pub struct ToolResult {
    /// JSON or plain text.
    pub content: String,
    pub success: bool,
    pub metadata: Option<serde_json::Value>,
}

impl ToolResult {
    pub fn success(content: String) -> (r: Self)
        ensures
            r.content == content,
            r.success,
            r.metadata is None,
    {
        ToolResult { content, success: true, metadata: None }
    }

    pub fn error(message: String) -> (r: Self)
        ensures
            r.content == message,
            !r.success,
            r.metadata is None,
    {
        ToolResult { content: message, success: false, metadata: None }
    }

    /// A successful result holding `value` as pretty-printed JSON.
    pub fn json(value: &serde_json::Value) -> (r: Result<Self, serde_json::Error>)
        ensures
            r is Ok,
            r matches Ok(t) ==> t.content@ == pretty_json(*value) && t.success && t.metadata is None,
    {
        match to_string_pretty(value) {
            Ok(content) => Ok(ToolResult { content, success: true, metadata: None }),
            Err(e) => Err(e),
        }
    }

    pub fn with_metadata(self, metadata: serde_json::Value) -> (r: Self)
        ensures
            r.content == self.content,
            r.success == self.success,
            r.metadata == Some(metadata),
    {
        ToolResult { content: self.content, success: self.success, metadata: Some(metadata) }
    }
}

/// What a tool runs in.
#[derive(Clone)]
pub struct ToolContext {
    /// The workspace root.
    pub workspace: std::path::PathBuf,
    /// Whether paths outside the workspace are allowed.
    pub trust_mode: bool,
    /// The notes file.
    pub notes_path: std::path::PathBuf,
    /// Whether tools approve without safety checks.
    pub auto_approve: bool,
    /// For cooperative cancellation.
    pub cancellation_token: Option<CancellationToken>,
}

impl ToolContext {
    /// A minimal context for a workspace: notes at
    /// `.novelwhale/notes.md`, no trust, no auto-approval, no token.
    pub fn for_workspace(workspace: std::path::PathBuf) -> (r: Self)
        ensures
            r.workspace == workspace,
            !r.trust_mode,
            !r.auto_approve,
            r.cancellation_token is None,
            r.notes_path == path_joined(path_joined(workspace, ".novelwhale"@), "notes.md"@),
    {
        let dir = join_path(&workspace, ".novelwhale");
        let notes_path = join_path(&dir, "notes.md");
        ToolContext {
            notes_path,
            workspace,
            trust_mode: false,
            auto_approve: false,
            cancellation_token: None,
        }
    }
}

} // verus!
