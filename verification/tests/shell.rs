use novel::engine::api::CancelReason;
use novel::engine::ops::{dispose_op, EngineOp, OpDisposition};
use novel::engine::{AppMode, ApprovalMode, NotificationKind};
use novel::shell::{handle_user_action, reduce, ShellEffect, ShellEvent, ShellState, UserAction};

#[test]
fn default_state_is_agent_mode() {
    let state = ShellState::default();
    assert_eq!(state.mode, AppMode::Agent);
    assert_eq!(state.approval_mode, ApprovalMode::Suggest);
    assert!(!state.is_streaming);
    assert!(state.active_tools.is_empty());
    assert!(state.pending_approvals.is_empty());
}

#[test]
fn message_delta_updates_streaming() {
    let mut state = ShellState::default();
    let effects = reduce(&mut state, ShellEvent::MessageDelta { content: "hello".to_string() });
    assert!(state.is_streaming);
    assert_eq!(state.streaming_content, "hello");
    assert!(effects.iter().any(|e| matches!(e, ShellEffect::RequestRedraw)));
}

#[test]
fn approval_required_adds_pending() {
    let mut state = ShellState::default();
    reduce(
        &mut state,
        ShellEvent::ApprovalRequired {
            id: "1".to_string(),
            tool_name: "exec_shell".to_string(),
            description: "Run command".to_string(),
        },
    );
    assert_eq!(state.pending_approvals.len(), 1);
}

#[test]
fn submit_prompt_creates_send_op() {
    let state = ShellState::default();
    let effects = handle_user_action(&state, UserAction::SubmitPrompt { content: "hello".to_string() });
    assert!(matches!(effects[0], ShellEffect::SendOp(EngineOp::SendMessage { .. })));
}

#[test]
fn reducer_produces_stable_snapshot_for_core_workflow() {
    let mut state = ShellState::default();

    reduce(&mut state, ShellEvent::MessageDelta { content: "hello".to_string() });
    assert!(state.is_streaming);
    assert_eq!(state.streaming_content, "hello");

    reduce(
        &mut state,
        ShellEvent::ToolCallStarted { id: "t1".to_string(), name: "web.search".to_string() },
    );
    assert_eq!(state.active_tools.len(), 1);
    assert_eq!(state.active_tools[0].id, "t1");

    reduce(
        &mut state,
        ShellEvent::ApprovalRequired {
            id: "a1".to_string(),
            tool_name: "exec_shell".to_string(),
            description: "Run command".to_string(),
        },
    );
    assert_eq!(state.pending_approvals.len(), 1);

    reduce(&mut state, ShellEvent::MessageComplete);
    assert!(!state.is_streaming);
    assert!(state.streaming_content.is_empty());

    reduce(&mut state, ShellEvent::PauseEvents);
    assert!(state.is_paused);
    reduce(&mut state, ShellEvent::ResumeEvents);
    assert!(!state.is_paused);

    assert_eq!(state.mode, AppMode::Agent);
    assert_eq!(state.approval_mode, ApprovalMode::Suggest);
}

#[test]
fn user_action_submit_prompt_produces_send_op() {
    let state = ShellState::default();
    let effects = handle_user_action(&state, UserAction::SubmitPrompt { content: "test prompt".to_string() });
    assert!(matches!(effects[0], ShellEffect::SendOp(_)));
}

#[test]
fn tool_complete_removes_tool_and_checkpoints() {
    let mut state = ShellState::default();
    reduce(&mut state, ShellEvent::ToolCallStarted { id: "t1".into(), name: "a".into() });
    reduce(&mut state, ShellEvent::ToolCallStarted { id: "t2".into(), name: "b".into() });
    let effects = reduce(&mut state, ShellEvent::ToolCallComplete { id: "t1".into() });
    assert_eq!(state.active_tools.len(), 1);
    assert_eq!(state.active_tools[0].id, "t2");
    assert_eq!(state.status_line, "tool running");
    assert!(matches!(effects[0], ShellEffect::RequestRedraw));
    assert!(matches!(effects[1], ShellEffect::PersistCheckpoint));
    reduce(&mut state, ShellEvent::ToolCallComplete { id: "t2".into() });
    assert_eq!(state.status_line, "ready");
}

#[test]
fn thinking_accumulates_and_clears() {
    let mut state = ShellState::default();
    reduce(&mut state, ShellEvent::ThinkingDelta { content: "ab".into() });
    reduce(&mut state, ShellEvent::ThinkingDelta { content: "c".into() });
    assert_eq!(state.thinking_content.as_deref(), Some("abc"));
    reduce(&mut state, ShellEvent::ThinkingComplete);
    assert!(state.thinking_content.is_none());
}

#[test]
fn user_input_and_agents() {
    let mut state = ShellState::default();
    reduce(&mut state, ShellEvent::UserInputRequired { id: "u".into(), prompt: None });
    assert_eq!(state.pending_user_inputs[0].prompt, "Input required");
    let long = "x".repeat(100);
    reduce(&mut state, ShellEvent::AgentSpawned { id: "g".into(), prompt: long });
    assert_eq!(state.sub_agents[0].prompt_preview.chars().count(), 80);
    assert_eq!(state.sub_agents[0].status, "running");
    reduce(&mut state, ShellEvent::AgentComplete { id: "g".into() });
    assert_eq!(state.sub_agents[0].status, "completed");
}

#[test]
fn status_session_and_notifications() {
    let mut state = ShellState::default();
    reduce(&mut state, ShellEvent::TurnStarted { turn_id: "7".into() });
    assert_eq!(state.status_line, "turn 7 started");
    reduce(&mut state, ShellEvent::Status { message: "busy".into() });
    assert_eq!(state.status_line, "busy");
    let e = reduce(&mut state, ShellEvent::SessionUpdated { session_id: "s9".into() });
    assert_eq!(state.session_id, "s9");
    assert!(matches!(e[0], ShellEffect::PersistCheckpoint));
    let n = reduce(
        &mut state,
        ShellEvent::Notification { kind: NotificationKind::TaskbarBusy, message: "m".into() },
    );
    match &n[0] {
        ShellEffect::Notify { kind, message } => {
            assert_eq!(kind, NotificationKind::TaskbarBusy.id());
            assert_eq!(message, "m");
        }
        _ => panic!("expected a notification"),
    }
    let o = reduce(&mut state, ShellEvent::Other);
    assert!(matches!(o[0], ShellEffect::RequestRedraw));
}

#[test]
fn user_actions_map_to_effects() {
    let state = ShellState::default();
    let a = handle_user_action(&state, UserAction::Approve { id: "1".into() });
    assert!(matches!(&a[0], ShellEffect::SubmitApproval { id, approved: true } if id == "1"));
    let d = handle_user_action(&state, UserAction::Deny { id: "2".into() });
    assert!(matches!(&d[0], ShellEffect::SubmitApproval { approved: false, .. }));
    let c = handle_user_action(&state, UserAction::Cancel);
    assert!(matches!(c[0], ShellEffect::SendOp(EngineOp::CancelRequest)));
    let s = handle_user_action(&state, UserAction::ScrollUp);
    assert!(matches!(s[0], ShellEffect::RequestRedraw));
    let m = handle_user_action(&state, UserAction::ChangeMode { mode: AppMode::Plan });
    assert!(matches!(m[0], ShellEffect::SendOp(EngineOp::ChangeMode { mode: AppMode::Plan })));
}

#[test]
fn modes_and_settings() {
    assert_eq!(AppMode::from_setting("plan"), AppMode::Plan);
    assert_eq!(AppMode::Novel.as_setting(), "novel");
    assert_eq!(AppMode::from_setting(AppMode::Yolo.as_setting()), AppMode::Yolo);
    assert_eq!(AppMode::Agent.label(), "AGENT");
    assert_eq!(ApprovalMode::default(), ApprovalMode::Suggest);
    assert_eq!(CancelReason::from_request(None), CancelReason::from_request(None));
}

#[test]
fn engine_task_dispositions() {
    assert!(matches!(dispose_op(&EngineOp::Shutdown), OpDisposition::Stop));
    assert!(matches!(dispose_op(&EngineOp::CancelRequest), OpDisposition::Cancel));
    match dispose_op(&EngineOp::ApproveToolCall { id: "7".into() }) {
        OpDisposition::Report(m) => assert_eq!(m, "approval approved: 7"),
        _ => panic!("expected a report"),
    }
    match dispose_op(&EngineOp::DenyToolCall { id: "8".into() }) {
        OpDisposition::Report(m) => assert_eq!(m, "approval denied: 8"),
        _ => panic!("expected a report"),
    }
    assert!(matches!(dispose_op(&EngineOp::CompactContext), OpDisposition::Forward));
}

#[test]
fn default_workspace_is_the_empty_path() {
    let state = ShellState::default();
    assert_eq!(state.workspace, std::path::PathBuf::new());
    assert_eq!(state.status_line, "ready");
}
