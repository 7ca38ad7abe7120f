use novel::agents::pipeline::{Pipeline, PipelineStep};
use novel::agents::roles::AgentRole;
use novel::agents::state::{PipelinePhase, PipelineRecord, PipelineStatus};
use novel::model::Genre;

#[test]
fn step_sequence_is_well_formed() {
    let flow = Pipeline::full_flow();
    assert_eq!(flow.len(), 5);
    for w in flow.windows(2) {
        assert_eq!(w[0].next(), Some(w[1]));
    }
    assert_eq!(flow.last().unwrap().next(), None);
}

#[test]
fn every_step_maps_to_agent_and_phase() {
    for s in [
        PipelineStep::ArchitectConcept,
        PipelineStep::OutlinerArc,
        PipelineStep::OutlinerChapter,
        PipelineStep::WriterDraft,
        PipelineStep::EditorPolish,
    ] {
        let _ = s.agent();
        let _ = s.phase();
    }
}

#[test]
fn steps_have_their_agents_and_phases() {
    assert_eq!(PipelineStep::ArchitectConcept.agent(), AgentRole::Architect);
    assert_eq!(PipelineStep::OutlinerArc.agent(), AgentRole::Outliner);
    assert_eq!(PipelineStep::OutlinerChapter.agent(), AgentRole::Outliner);
    assert_eq!(PipelineStep::WriterDraft.agent(), AgentRole::Writer);
    assert_eq!(PipelineStep::EditorPolish.agent(), AgentRole::Editor);
    assert_eq!(PipelineStep::OutlinerChapter.phase(), PipelinePhase::Outline);
    assert_eq!(PipelineStep::WriterDraft.phase(), PipelinePhase::Draft);
    assert_eq!(PipelineStep::EditorPolish.phase(), PipelinePhase::Polish);
}

#[test]
fn draft_only_flow_is_write_then_edit() {
    let flow = Pipeline::draft_only_flow();
    assert_eq!(flow, vec![PipelineStep::WriterDraft, PipelineStep::EditorPolish]);
    assert_eq!(Pipeline::next_step(PipelineStep::WriterDraft), Some(PipelineStep::EditorPolish));
    assert_eq!(Pipeline::next_step(PipelineStep::EditorPolish), None);
}

#[test]
fn step_labels_and_names() {
    assert_eq!(PipelineStep::ArchitectConcept.label(), "架构师：搭骨架");
    assert_eq!(PipelineStep::EditorPolish.name(), "EditorPolish");
    assert_eq!(AgentRole::Director.label(), "主编");
    assert_eq!(AgentRole::Outliner.id(), "outliner");
    assert_eq!(PipelinePhase::Detail.label(), "细纲");
    assert_eq!(PipelinePhase::Polish.id(), "polish");
}

#[test]
fn fresh_record_starts_at_architect() {
    let r = PipelineRecord::new(Genre::Xianxia);
    assert_eq!(r.step, PipelineStep::ArchitectConcept);
    assert_eq!(r.current_agent, AgentRole::Architect);
    assert_eq!(r.phase, PipelinePhase::Concept);
    assert_eq!(r.status, PipelineStatus::Pending);
    assert!(r.completed_steps.is_empty());
    assert!(r.chapter.is_none());
}

#[test]
fn set_step_brings_agent_and_phase() {
    let mut r = PipelineRecord::new(Genre::Urban);
    r.set_step(PipelineStep::WriterDraft);
    assert_eq!(r.step, PipelineStep::WriterDraft);
    assert_eq!(r.current_agent, AgentRole::Writer);
    assert_eq!(r.phase, PipelinePhase::Draft);
    assert_eq!(r.genre, Genre::Urban);
}
