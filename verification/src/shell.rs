//! UI-agnostic shell state: an Elm-style reducer from engine events to the
//! next state and the effects a frontend should perform, and the mapping of
//! user actions to effects.
use vstd::prelude::*;

use crate::engine::events::ErrorEnvelope;
use crate::engine::ops::EngineOp;
use crate::engine::{spec_notification_id, AppMode, ApprovalMode, NotificationKind};
use crate::foreign::{path_from, path_of};
use crate::text::{string_of, str_to_chars, chars_to_string};

verus! {

/// A conversation message, summarised.
#[derive(Clone, Debug)]
pub struct MessageSummary {
    pub role: String,
    pub content_preview: String,
    pub turn_id: Option<String>,
}

/// A running tool call.
#[derive(Clone, Debug)]
pub struct ActiveTool {
    pub id: String,
    pub name: String,
}

/// A tool call waiting for approval.
#[derive(Clone, Debug)]
pub struct PendingApproval {
    pub id: String,
    pub tool_name: String,
    pub description: String,
}

/// A tool waiting for user input.
#[derive(Clone, Debug)]
pub struct PendingUserInput {
    pub id: String,
    pub prompt: String,
}

/// A sub-agent, summarised.
#[derive(Clone, Debug)]
pub struct SubAgentSummary {
    pub id: String,
    pub status: String,
    pub prompt_preview: String,
}

/// The whole UI-agnostic shell state.
#[derive(Clone, Debug)]
pub struct ShellState {
    pub session_id: String,
    pub messages: Vec<MessageSummary>,
    pub model: String,
    pub mode: AppMode,
    pub approval_mode: ApprovalMode,
    pub workspace: std::path::PathBuf,
    pub is_streaming: bool,
    pub streaming_content: String,
    pub thinking_content: Option<String>,
    pub active_tools: Vec<ActiveTool>,
    pub pending_approvals: Vec<PendingApproval>,
    pub pending_user_inputs: Vec<PendingUserInput>,
    pub sub_agents: Vec<SubAgentSummary>,
    pub is_paused: bool,
    pub status_line: String,
    pub last_error: Option<String>,
}

impl Default for ShellState {
    fn default() -> (r: Self)
        ensures
            r@ == default_shell_view(r.workspace),
            r.workspace == path_of(""@),
    {
        let r = ShellState {
            session_id: String::new(),
            messages: Vec::new(),
            model: String::new(),
            mode: AppMode::Agent,
            approval_mode: ApprovalMode::default(),
            workspace: path_from(""),
            is_streaming: false,
            streaming_content: String::new(),
            thinking_content: None,
            active_tools: Vec::new(),
            pending_approvals: Vec::new(),
            pending_user_inputs: Vec::new(),
            sub_agents: Vec::new(),
            is_paused: false,
            status_line: string_of("ready"),
            last_error: None,
        };
        assert(r@ =~= default_shell_view(r.workspace));
        r
    }
}

// ---------------------------------------------------------------------------
// Views
// ---------------------------------------------------------------------------

pub open spec fn opt_view(o: Option<String>) -> Option<Seq<char>> {
    match o {
        Some(s) => Some(s@),
        None => None,
    }
}

pub struct MessageView {
    pub role: Seq<char>,
    pub content_preview: Seq<char>,
    pub turn_id: Option<Seq<char>>,
}

pub struct ToolView {
    pub id: Seq<char>,
    pub name: Seq<char>,
}

pub struct ApprovalView {
    pub id: Seq<char>,
    pub tool_name: Seq<char>,
    pub description: Seq<char>,
}

pub struct InputView {
    pub id: Seq<char>,
    pub prompt: Seq<char>,
}

pub struct AgentView {
    pub id: Seq<char>,
    pub status: Seq<char>,
    pub prompt_preview: Seq<char>,
}

impl View for MessageSummary {
    type V = MessageView;

    open spec fn view(&self) -> MessageView {
        MessageView {
            role: self.role@,
            content_preview: self.content_preview@,
            turn_id: opt_view(self.turn_id),
        }
    }
}

impl View for ActiveTool {
    type V = ToolView;

    open spec fn view(&self) -> ToolView {
        ToolView { id: self.id@, name: self.name@ }
    }
}

impl View for PendingApproval {
    type V = ApprovalView;

    open spec fn view(&self) -> ApprovalView {
        ApprovalView { id: self.id@, tool_name: self.tool_name@, description: self.description@ }
    }
}

impl View for PendingUserInput {
    type V = InputView;

    open spec fn view(&self) -> InputView {
        InputView { id: self.id@, prompt: self.prompt@ }
    }
}

impl View for SubAgentSummary {
    type V = AgentView;

    open spec fn view(&self) -> AgentView {
        AgentView { id: self.id@, status: self.status@, prompt_preview: self.prompt_preview@ }
    }
}

/// The plain content of a [`ShellState`].
#[verifier::ext_equal]
pub struct ShellView {
    pub session_id: Seq<char>,
    pub messages: Seq<MessageView>,
    pub model: Seq<char>,
    pub mode: AppMode,
    pub approval_mode: ApprovalMode,
    pub workspace: std::path::PathBuf,
    pub is_streaming: bool,
    pub streaming_content: Seq<char>,
    pub thinking_content: Option<Seq<char>>,
    pub active_tools: Seq<ToolView>,
    pub pending_approvals: Seq<ApprovalView>,
    pub pending_user_inputs: Seq<InputView>,
    pub sub_agents: Seq<AgentView>,
    pub is_paused: bool,
    pub status_line: Seq<char>,
    pub last_error: Option<Seq<char>>,
}

impl View for ShellState {
    type V = ShellView;

    open spec fn view(&self) -> ShellView {
        ShellView {
            session_id: self.session_id@,
            messages: Seq::new(self.messages@.len(), |i: int| self.messages@[i]@),
            model: self.model@,
            mode: self.mode,
            approval_mode: self.approval_mode,
            workspace: self.workspace,
            is_streaming: self.is_streaming,
            streaming_content: self.streaming_content@,
            thinking_content: opt_view(self.thinking_content),
            active_tools: Seq::new(self.active_tools@.len(), |i: int| self.active_tools@[i]@),
            pending_approvals: Seq::new(
                self.pending_approvals@.len(),
                |i: int| self.pending_approvals@[i]@,
            ),
            pending_user_inputs: Seq::new(
                self.pending_user_inputs@.len(),
                |i: int| self.pending_user_inputs@[i]@,
            ),
            sub_agents: Seq::new(self.sub_agents@.len(), |i: int| self.sub_agents@[i]@),
            is_paused: self.is_paused,
            status_line: self.status_line@,
            last_error: opt_view(self.last_error),
        }
    }
}

/// The state a shell starts in: agent mode, suggest approvals, nothing
/// pending, status "ready".
pub open spec fn default_shell_view(workspace: std::path::PathBuf) -> ShellView {
    ShellView {
        session_id: Seq::empty(),
        messages: Seq::empty(),
        model: Seq::empty(),
        mode: AppMode::Agent,
        approval_mode: ApprovalMode::Suggest,
        workspace,
        is_streaming: false,
        streaming_content: Seq::empty(),
        thinking_content: None,
        active_tools: Seq::empty(),
        pending_approvals: Seq::empty(),
        pending_user_inputs: Seq::empty(),
        sub_agents: Seq::empty(),
        is_paused: false,
        status_line: "ready"@,
        last_error: None,
    }
}

// ---------------------------------------------------------------------------
// Events, effects, actions
// ---------------------------------------------------------------------------

/// An engine event, as far as the shell reads it.
#[derive(Clone, Debug)]
pub enum ShellEvent {
    MessageDelta { content: String },
    MessageComplete,
    ThinkingDelta { content: String },
    ThinkingComplete,
    ToolCallStarted { id: String, name: String },
    ToolCallComplete { id: String },
    TurnStarted { turn_id: String },
    TurnComplete,
    ApprovalRequired { id: String, tool_name: String, description: String },
    /// `prompt` is the request's `prompt` text, if it has one.
    UserInputRequired { id: String, prompt: Option<String> },
    AgentSpawned { id: String, prompt: String },
    AgentComplete { id: String },
    Error { envelope: ErrorEnvelope },
    Status { message: String },
    Notification { kind: NotificationKind, message: String },
    SessionUpdated { session_id: String },
    PauseEvents,
    ResumeEvents,
    /// Any other event.
    Other,
}

/// Side effects the frontend should perform.
#[derive(Clone, Debug)]
pub enum ShellEffect {
    /// Send an operation to the engine.
    SendOp(EngineOp),
    /// Submit an approval decision.
    SubmitApproval { id: String, approved: bool },
    /// Submit user input.
    SubmitUserInput { id: String, response: String },
    /// Persist a checkpoint.
    PersistCheckpoint,
    /// Redraw the UI.
    RequestRedraw,
    /// Show a notification.
    Notify { kind: String, message: String },
}

/// The plain content of an effect.
pub enum EffectView {
    SendOp(EngineOp),
    SubmitApproval { id: Seq<char>, approved: bool },
    SubmitUserInput { id: Seq<char>, response: Seq<char> },
    PersistCheckpoint,
    RequestRedraw,
    Notify { kind: Seq<char>, message: Seq<char> },
}

impl View for ShellEffect {
    type V = EffectView;

    open spec fn view(&self) -> EffectView {
        match self {
            ShellEffect::SendOp(op) => EffectView::SendOp(*op),
            ShellEffect::SubmitApproval { id, approved } => EffectView::SubmitApproval {
                id: id@,
                approved: *approved,
            },
            ShellEffect::SubmitUserInput { id, response } => EffectView::SubmitUserInput {
                id: id@,
                response: response@,
            },
            ShellEffect::PersistCheckpoint => EffectView::PersistCheckpoint,
            ShellEffect::RequestRedraw => EffectView::RequestRedraw,
            ShellEffect::Notify { kind, message } => EffectView::Notify {
                kind: kind@,
                message: message@,
            },
        }
    }
}

pub open spec fn effect_views(v: Seq<ShellEffect>) -> Seq<EffectView> {
    Seq::new(v.len(), |i: int| v[i]@)
}

/// What a frontend's user can do.
#[derive(Clone, Debug)]
pub enum UserAction {
    SubmitPrompt { content: String },
    Approve { id: String },
    Deny { id: String },
    Cancel,
    ChangeMode { mode: AppMode },
    SetModel { model: String },
    ScrollUp,
    ScrollDown,
    ToggleThinking,
    CompactContext,
    PurgeContext,
}

// ---------------------------------------------------------------------------
// The reducer, as a specification
// ---------------------------------------------------------------------------

/// The tools other than `id`.
pub open spec fn without_tool(ts: Seq<ToolView>, id: Seq<char>) -> Seq<ToolView>
    decreases ts.len(),
{
    if ts.len() == 0 {
        Seq::empty()
    } else {
        without_tool(ts.drop_last(), id) + if ts.last().id != id {
            seq![ts.last()]
        } else {
            Seq::empty()
        }
    }
}

/// Index of the first agent with id `id`, from `i` on.
pub open spec fn find_agent(agents: Seq<AgentView>, id: Seq<char>, i: int) -> Option<int>
    decreases agents.len() - i,
{
    if i < 0 || i >= agents.len() {
        None
    } else if agents[i].id == id {
        Some(i)
    } else {
        find_agent(agents, id, i + 1)
    }
}

/// The first agent with id `id`, if any, marked completed.
pub open spec fn complete_agent(agents: Seq<AgentView>, id: Seq<char>) -> Seq<AgentView> {
    match find_agent(agents, id, 0) {
        Some(i) => agents.update(
            i,
            AgentView { id: agents[i].id, status: "completed"@, prompt_preview: agents[i].prompt_preview },
        ),
        None => agents,
    }
}

/// The first 80 chars of a prompt.
pub open spec fn preview(p: Seq<char>) -> Seq<char> {
    if p.len() <= 80 {
        p
    } else {
        p.take(80)
    }
}

/// The state after an event.
pub open spec fn reduce_state(s: ShellView, e: ShellEvent) -> ShellView {
    match e {
        ShellEvent::MessageDelta { content } => ShellView {
            is_streaming: true,
            streaming_content: s.streaming_content + content@,
            status_line: "streaming"@,
            ..s
        },
        ShellEvent::MessageComplete => ShellView {
            is_streaming: false,
            streaming_content: Seq::empty(),
            status_line: "ready"@,
            ..s
        },
        ShellEvent::ThinkingDelta { content } => ShellView {
            thinking_content: Some(
                match s.thinking_content {
                    Some(t) => t,
                    None => Seq::empty(),
                } + content@,
            ),
            ..s
        },
        ShellEvent::ThinkingComplete => ShellView { thinking_content: None, ..s },
        ShellEvent::ToolCallStarted { id, name } => ShellView {
            active_tools: s.active_tools.push(ToolView { id: id@, name: name@ }),
            status_line: "tool running"@,
            ..s
        },
        ShellEvent::ToolCallComplete { id } => {
            let rest = without_tool(s.active_tools, id@);
            ShellView {
                active_tools: rest,
                status_line: if rest.len() == 0 {
                    "ready"@
                } else {
                    s.status_line
                },
                ..s
            }
        },
        ShellEvent::TurnStarted { turn_id } => ShellView {
            status_line: "turn "@ + turn_id@ + " started"@,
            ..s
        },
        ShellEvent::TurnComplete => ShellView {
            is_streaming: false,
            streaming_content: Seq::empty(),
            status_line: "turn complete"@,
            ..s
        },
        ShellEvent::ApprovalRequired { id, tool_name, description } => ShellView {
            pending_approvals: s.pending_approvals.push(
                ApprovalView { id: id@, tool_name: tool_name@, description: description@ },
            ),
            status_line: "approval required"@,
            ..s
        },
        ShellEvent::UserInputRequired { id, prompt } => ShellView {
            pending_user_inputs: s.pending_user_inputs.push(
                InputView {
                    id: id@,
                    prompt: match prompt {
                        Some(p) => p@,
                        None => "Input required"@,
                    },
                },
            ),
            status_line: "user input required"@,
            ..s
        },
        ShellEvent::AgentSpawned { id, prompt } => ShellView {
            sub_agents: s.sub_agents.push(
                AgentView { id: id@, status: "running"@, prompt_preview: preview(prompt@) },
            ),
            ..s
        },
        ShellEvent::AgentComplete { id } => ShellView {
            sub_agents: complete_agent(s.sub_agents, id@),
            ..s
        },
        ShellEvent::Error { envelope } => ShellView {
            last_error: Some(envelope.message@),
            status_line: "error: "@ + envelope.message@,
            ..s
        },
        ShellEvent::Status { message } => ShellView { status_line: message@, ..s },
        ShellEvent::SessionUpdated { session_id } => ShellView { session_id: session_id@, ..s },
        ShellEvent::PauseEvents => ShellView { is_paused: true, ..s },
        ShellEvent::ResumeEvents => ShellView { is_paused: false, ..s },
        ShellEvent::Notification { .. } => s,
        ShellEvent::Other => s,
    }
}

/// The effects of an event.
pub open spec fn reduce_effects(e: ShellEvent) -> Seq<EffectView> {
    match e {
        ShellEvent::ToolCallComplete { .. } => seq![
            EffectView::RequestRedraw,
            EffectView::PersistCheckpoint,
        ],
        ShellEvent::TurnComplete => seq![EffectView::RequestRedraw, EffectView::PersistCheckpoint],
        ShellEvent::ApprovalRequired { .. } => seq![
            EffectView::RequestRedraw,
            EffectView::Notify { kind: "approval"@, message: "Tool approval required"@ },
        ],
        ShellEvent::Notification { kind, message } => seq![
            EffectView::Notify { kind: spec_notification_id(kind), message: message@ },
        ],
        ShellEvent::SessionUpdated { .. } => seq![EffectView::PersistCheckpoint],
        _ => seq![EffectView::RequestRedraw],
    }
}

// ---------------------------------------------------------------------------
// The reducer
// ---------------------------------------------------------------------------

pub open spec fn tool_views(v: Seq<ActiveTool>) -> Seq<ToolView> {
    Seq::new(v.len(), |i: int| v[i]@)
}

pub open spec fn agent_views(v: Seq<SubAgentSummary>) -> Seq<AgentView> {
    Seq::new(v.len(), |i: int| v[i]@)
}

/// `a` followed by `b`.
fn concat(a: &String, b: &String) -> (r: String)
    ensures
        r@ == a@ + b@,
{
    let mut v = str_to_chars(a.as_str());
    let w = str_to_chars(b.as_str());
    crate::text::push_chars(&mut v, &w);
    chars_to_string(&v)
}

/// `prefix`, `s`, then `suffix`.
fn framed(prefix: &str, s: &String, suffix: &str) -> (r: String)
    ensures
        r@ == prefix@ + s@ + suffix@,
{
    let mut v = str_to_chars(prefix);
    let w = str_to_chars(s.as_str());
    crate::text::push_chars(&mut v, &w);
    crate::text::push_str(&mut v, suffix);
    chars_to_string(&v)
}

/// `prefix` then `s`.
fn with_prefix(prefix: &str, s: &String) -> (r: String)
    ensures
        r@ == prefix@ + s@,
{
    let mut v = str_to_chars(prefix);
    let w = str_to_chars(s.as_str());
    crate::text::push_chars(&mut v, &w);
    chars_to_string(&v)
}

fn copy_tool(t: &ActiveTool) -> (r: ActiveTool)
    ensures
        r@ == t@,
{
    ActiveTool { id: t.id.clone(), name: t.name.clone() }
}

/// Drops the tools with id `id`, keeping the order of the others.
fn remove_tool(tools: &mut Vec<ActiveTool>, id: &String)
    ensures
        tool_views(final(tools)@) == without_tool(tool_views(old(tools)@), id@),
{
    let mut rest: Vec<ActiveTool> = Vec::new();
    std::mem::swap(&mut rest, tools);
    let ghost orig = tool_views(rest@);
    assert(tool_views(tools@) =~= without_tool(orig.take(0), id@));
    for i in 0..rest.len()
        invariant
            orig == tool_views(rest@),
            tool_views(tools@) == without_tool(orig.take(i as int), id@),
    {
        assert(orig.take(i + 1).drop_last() =~= orig.take(i as int));
        assert(orig.take(i + 1).last() == rest@[i as int]@);
        let ghost before = tool_views(tools@);
        if !(rest[i].id == *id) {
            let t = copy_tool(&rest[i]);
            tools.push(t);
            assert(tool_views(tools@) =~= before.push(rest@[i as int]@));
        }
        assert(tool_views(tools@) =~= without_tool(orig.take(i + 1), id@));
    }
    assert(orig.take(orig.len() as int) =~= orig);
}

/// Marks the first sub-agent with id `id` completed.
fn complete_agent_exec(agents: &mut Vec<SubAgentSummary>, id: &String)
    ensures
        agent_views(final(agents)@) == complete_agent(agent_views(old(agents)@), id@),
{
    let ghost av = agent_views(agents@);
    let mut i: usize = 0;
    while i < agents.len()
        invariant
            av == agent_views(agents@),
            av == agent_views(old(agents)@),
            i <= agents@.len(),
            find_agent(av, id@, 0) == find_agent(av, id@, i as int),
        decreases agents@.len() - i,
    {
        if agents[i].id == *id {
            let a = SubAgentSummary {
                id: agents[i].id.clone(),
                status: string_of("completed"),
                prompt_preview: agents[i].prompt_preview.clone(),
            };
            agents.set(i, a);
            assert(agent_views(agents@) =~= complete_agent(av, id@));
            return;
        }
        i = i + 1;
    }
}

/// The first 80 chars of `p`.
fn preview_of(p: &String) -> (r: String)
    ensures
        r@ == preview(p@),
{
    let v = str_to_chars(p.as_str());
    let n: usize = if v.len() <= 80 {
        v.len()
    } else {
        80
    };
    let w = crate::text::copy_range(&v, 0, n);
    assert(w@ =~= preview(p@));
    chars_to_string(&w)
}

fn one_effect(e: ShellEffect) -> (r: Vec<ShellEffect>)
    ensures
        effect_views(r@) == seq![e@],
{
    let ghost v = e@;
    let mut r: Vec<ShellEffect> = Vec::new();
    r.push(e);
    assert(effect_views(r@) =~= seq![v]);
    r
}

fn two_effects(a: ShellEffect, b: ShellEffect) -> (r: Vec<ShellEffect>)
    ensures
        effect_views(r@) == seq![a@, b@],
{
    let ghost va = a@;
    let ghost vb = b@;
    let mut r: Vec<ShellEffect> = Vec::new();
    r.push(a);
    r.push(b);
    assert(effect_views(r@) =~= seq![va, vb]);
    r
}

/// Applies an engine event to the shell state and returns the effects the
/// frontend should perform.
pub fn reduce(state: &mut ShellState, event: ShellEvent) -> (r: Vec<ShellEffect>)
    ensures
        final(state)@ == reduce_state(old(state)@, event),
        effect_views(r@) == reduce_effects(event),
{
    let ghost s0 = state@;
    let ghost e = event;
    match event {
        ShellEvent::MessageDelta { content } => {
            state.is_streaming = true;
            state.streaming_content = concat(&state.streaming_content, &content);
            state.status_line = string_of("streaming");
            assert(state@ =~= reduce_state(s0, e));
            one_effect(ShellEffect::RequestRedraw)
        },
        ShellEvent::MessageComplete => {
            state.is_streaming = false;
            state.streaming_content = String::new();
            state.status_line = string_of("ready");
            assert(state@ =~= reduce_state(s0, e));
            one_effect(ShellEffect::RequestRedraw)
        },
        ShellEvent::ThinkingDelta { content } => {
            let cur = match &state.thinking_content {
                Some(t) => t.clone(),
                None => String::new(),
            };
            state.thinking_content = Some(concat(&cur, &content));
            assert(state@ =~= reduce_state(s0, e));
            one_effect(ShellEffect::RequestRedraw)
        },
        ShellEvent::ThinkingComplete => {
            state.thinking_content = None;
            assert(state@ =~= reduce_state(s0, e));
            one_effect(ShellEffect::RequestRedraw)
        },
        ShellEvent::ToolCallStarted { id, name } => {
            state.active_tools.push(ActiveTool { id, name });
            state.status_line = string_of("tool running");
            assert(state@ =~= reduce_state(s0, e));
            one_effect(ShellEffect::RequestRedraw)
        },
        ShellEvent::ToolCallComplete { id } => {
            remove_tool(&mut state.active_tools, &id);
            if state.active_tools.len() == 0 {
                state.status_line = string_of("ready");
            }
            assert(state@ =~= reduce_state(s0, e));
            two_effects(ShellEffect::RequestRedraw, ShellEffect::PersistCheckpoint)
        },
        ShellEvent::TurnStarted { turn_id } => {
            state.status_line = framed("turn ", &turn_id, " started");
            assert(state@ =~= reduce_state(s0, e));
            one_effect(ShellEffect::RequestRedraw)
        },
        ShellEvent::TurnComplete => {
            state.is_streaming = false;
            state.streaming_content = String::new();
            state.status_line = string_of("turn complete");
            assert(state@ =~= reduce_state(s0, e));
            two_effects(ShellEffect::RequestRedraw, ShellEffect::PersistCheckpoint)
        },
        ShellEvent::ApprovalRequired { id, tool_name, description } => {
            state.pending_approvals.push(PendingApproval { id, tool_name, description });
            state.status_line = string_of("approval required");
            assert(state@ =~= reduce_state(s0, e));
            two_effects(
                ShellEffect::RequestRedraw,
                ShellEffect::Notify {
                    kind: string_of("approval"),
                    message: string_of("Tool approval required"),
                },
            )
        },
        ShellEvent::UserInputRequired { id, prompt } => {
            let prompt = match prompt {
                Some(p) => p,
                None => string_of("Input required"),
            };
            state.pending_user_inputs.push(PendingUserInput { id, prompt });
            state.status_line = string_of("user input required");
            assert(state@ =~= reduce_state(s0, e));
            one_effect(ShellEffect::RequestRedraw)
        },
        ShellEvent::AgentSpawned { id, prompt } => {
            let prompt_preview = preview_of(&prompt);
            state.sub_agents.push(
                SubAgentSummary { id, status: string_of("running"), prompt_preview },
            );
            assert(state@ =~= reduce_state(s0, e));
            one_effect(ShellEffect::RequestRedraw)
        },
        ShellEvent::AgentComplete { id } => {
            complete_agent_exec(&mut state.sub_agents, &id);
            assert(state@ =~= reduce_state(s0, e));
            one_effect(ShellEffect::RequestRedraw)
        },
        ShellEvent::Error { envelope } => {
            state.last_error = Some(envelope.message.clone());
            state.status_line = with_prefix("error: ", &envelope.message);
            assert(state@ =~= reduce_state(s0, e));
            one_effect(ShellEffect::RequestRedraw)
        },
        ShellEvent::Status { message } => {
            state.status_line = message;
            assert(state@ =~= reduce_state(s0, e));
            one_effect(ShellEffect::RequestRedraw)
        },
        ShellEvent::Notification { kind, message } => {
            one_effect(ShellEffect::Notify { kind: string_of(kind.id()), message })
        },
        ShellEvent::SessionUpdated { session_id } => {
            state.session_id = session_id;
            assert(state@ =~= reduce_state(s0, e));
            one_effect(ShellEffect::PersistCheckpoint)
        },
        ShellEvent::PauseEvents => {
            state.is_paused = true;
            assert(state@ =~= reduce_state(s0, e));
            one_effect(ShellEffect::RequestRedraw)
        },
        ShellEvent::ResumeEvents => {
            state.is_paused = false;
            assert(state@ =~= reduce_state(s0, e));
            one_effect(ShellEffect::RequestRedraw)
        },
        ShellEvent::Other => one_effect(ShellEffect::RequestRedraw),
    }
}

// ---------------------------------------------------------------------------
// User actions
// ---------------------------------------------------------------------------

/// The effects of a user action.
pub open spec fn action_effects(state: ShellState, a: UserAction) -> Seq<EffectView> {
    match a {
        UserAction::SubmitPrompt { content } => seq![
            EffectView::SendOp(
                EngineOp::SendMessage {
                    content,
                    mode: state.mode,
                    model: state.model,
                    goal_objective: None,
                    reasoning_effort: None,
                    reasoning_effort_auto: false,
                    auto_model: false,
                    allow_shell: true,
                    trust_mode: false,
                    auto_approve: false,
                    approval_mode: state.approval_mode,
                    translation_enabled: false,
                    show_thinking: false,
                    allowed_tools: None,
                    hook_executor_name: None,
                },
            ),
        ],
        UserAction::Approve { id } => seq![EffectView::SubmitApproval { id: id@, approved: true }],
        UserAction::Deny { id } => seq![EffectView::SubmitApproval { id: id@, approved: false }],
        UserAction::Cancel => seq![EffectView::SendOp(EngineOp::CancelRequest)],
        UserAction::ChangeMode { mode } => seq![EffectView::SendOp(EngineOp::ChangeMode { mode })],
        UserAction::SetModel { model } => seq![
            EffectView::SendOp(EngineOp::SetModel { model, mode: state.mode }),
        ],
        UserAction::ScrollUp => seq![EffectView::RequestRedraw],
        UserAction::ScrollDown => seq![EffectView::RequestRedraw],
        UserAction::ToggleThinking => seq![EffectView::RequestRedraw],
        UserAction::CompactContext => seq![EffectView::SendOp(EngineOp::CompactContext)],
        UserAction::PurgeContext => seq![EffectView::SendOp(EngineOp::PurgeContext)],
    }
}

/// Maps a user action to the effects the frontend should perform.
pub fn handle_user_action(state: &ShellState, action: UserAction) -> (r: Vec<ShellEffect>)
    ensures
        effect_views(r@) == action_effects(*state, action),
{
    match action {
        UserAction::SubmitPrompt { content } => one_effect(
            ShellEffect::SendOp(
                EngineOp::SendMessage {
                    content,
                    mode: state.mode,
                    model: state.model.clone(),
                    goal_objective: None,
                    reasoning_effort: None,
                    reasoning_effort_auto: false,
                    auto_model: false,
                    allow_shell: true,
                    trust_mode: false,
                    auto_approve: false,
                    approval_mode: state.approval_mode,
                    translation_enabled: false,
                    show_thinking: false,
                    allowed_tools: None,
                    hook_executor_name: None,
                },
            ),
        ),
        UserAction::Approve { id } => one_effect(ShellEffect::SubmitApproval { id, approved: true }),
        UserAction::Deny { id } => one_effect(ShellEffect::SubmitApproval { id, approved: false }),
        UserAction::Cancel => one_effect(ShellEffect::SendOp(EngineOp::CancelRequest)),
        UserAction::ChangeMode { mode } => one_effect(
            ShellEffect::SendOp(EngineOp::ChangeMode { mode }),
        ),
        UserAction::SetModel { model } => one_effect(
            ShellEffect::SendOp(EngineOp::SetModel { model, mode: state.mode }),
        ),
        UserAction::ScrollUp => one_effect(ShellEffect::RequestRedraw),
        UserAction::ScrollDown => one_effect(ShellEffect::RequestRedraw),
        UserAction::ToggleThinking => one_effect(ShellEffect::RequestRedraw),
        UserAction::CompactContext => one_effect(ShellEffect::SendOp(EngineOp::CompactContext)),
        UserAction::PurgeContext => one_effect(ShellEffect::SendOp(EngineOp::PurgeContext)),
    }
}

// ---------------------------------------------------------------------------
// Laws
// ---------------------------------------------------------------------------

/// No engine event changes the session's mode, approval mode, model,
/// workspace or message list.
pub proof fn law_events_keep_session_settings(s: ShellView, e: ShellEvent)
    ensures
        reduce_state(s, e).mode == s.mode,
        reduce_state(s, e).approval_mode == s.approval_mode,
        reduce_state(s, e).model == s.model,
        reduce_state(s, e).workspace == s.workspace,
        reduce_state(s, e).messages == s.messages,
{
}

proof fn lemma_without_tool_none(ts: Seq<ToolView>, id: Seq<char>)
    ensures
        forall|i: int|
            0 <= i < without_tool(ts, id).len() ==> (#[trigger] without_tool(ts, id)[i]).id != id,
    decreases ts.len(),
{
    if ts.len() > 0 {
        lemma_without_tool_none(ts.drop_last(), id);
        let a = without_tool(ts.drop_last(), id);
        let b: Seq<ToolView> = if ts.last().id != id {
            seq![ts.last()]
        } else {
            Seq::empty()
        };
        assert forall|i: int| 0 <= i < (a + b).len() implies (#[trigger] (a + b)[i]).id != id by {
            if i < a.len() {
                assert((a + b)[i] == a[i]);
            } else {
                assert((a + b)[i] == b[i - a.len()]);
            }
        }
    }
}

proof fn lemma_without_tool_absent(ts: Seq<ToolView>, id: Seq<char>)
    requires
        forall|i: int| 0 <= i < ts.len() ==> (#[trigger] ts[i]).id != id,
    ensures
        without_tool(ts, id) == ts,
    decreases ts.len(),
{
    if ts.len() > 0 {
        lemma_without_tool_absent(ts.drop_last(), id);
        assert(ts.drop_last().push(ts.last()) =~= ts);
    }
}

/// Once a tool call completes, no running tool has its id.
pub proof fn law_completed_tool_is_gone(s: ShellView, id: String)
    ensures
        forall|i: int|
            0 <= i < reduce_state(s, (ShellEvent::ToolCallComplete { id })).active_tools.len()
                ==> (#[trigger] reduce_state(
                s,
                (ShellEvent::ToolCallComplete { id }),
            ).active_tools[i]).id != id@,
{
    lemma_without_tool_none(s.active_tools, id@);
}

/// Completing a tool call that was just started, with an id no other
/// running tool has, gives back the running tools from before the start.
pub proof fn law_tool_start_then_complete(s: ShellView, id: String, name: String)
    requires
        forall|i: int| 0 <= i < s.active_tools.len() ==> (#[trigger] s.active_tools[i]).id != id@,
    ensures
        reduce_state(
            reduce_state(s, (ShellEvent::ToolCallStarted { id, name })),
            (ShellEvent::ToolCallComplete { id }),
        ).active_tools == s.active_tools,
{
    let ts = s.active_tools.push(ToolView { id: id@, name: name@ });
    assert(ts.drop_last() =~= s.active_tools);
    lemma_without_tool_absent(s.active_tools, id@);
}

/// Pausing and then resuming leaves the shell unpaused, and changes nothing
/// else.
pub proof fn law_pause_then_resume(s: ShellView)
    ensures
        reduce_state(reduce_state(s, ShellEvent::PauseEvents), ShellEvent::ResumeEvents) == (ShellView {
            is_paused: false,
            ..s
        }),
{
}

} // verus!
