use novel::agents::pipeline::PipelineStep;
use novel::agents::state::{PipelineRecord, PipelineStatus};
use novel::consistency::checker::{FactStore, FactWorldRule};
use novel::model::{CreationStage, Genre, NarrativeNodeType, TargetPlatform, WorldCategory};
use novel::synopsis::store::SynopsisStore;
use novel::tools::branch_explore::branch_count;
use novel::tools::chapter_path::{fallback_chapter_file, parse_u32_chars};
use novel::tools::fact_lock::{constitution_with_rule, parse_category, NovelFactLockTool};
use novel::tools::genre_template::{genre_id, NovelGenreTemplateTool};
use novel::tools::init::{genre_label, parse_platform, platform_label, project_dirs};
use novel::tools::outline_build::{check_outline_request, classify_chapter};
use novel::tools::pipeline_run::{advance_record, apply_run_input, parse_step, pipeline_reads};
use novel::rag::retriever::RetrieverError;
use novel::tools::rag_search::{after_search_error, search_options, SearchStep};
use novel::tools::read_state::title_from_config;
use novel::tools::reader_simulate::{build_user_prompt, parse_genre, reader_label, truncate_chapter};
use novel::tools::slump_diagnose::{build_followup_prompt, diagnose, slump_window, SlumpReport, SlumpSignal};
use novel::tools::spec::{ApprovalRequirement, ToolCapability, ToolContext, ToolError, ToolResult};
use novel::tools::stage_set::parse_stage;
use novel::tools::write::{chapter_body, chapter_file_name, count_words, is_blank, parse_node_type, write_chapter_number, NovelWriteTool};

#[test]
fn parse_genre_zh_works() {
    assert!(matches!(parse_genre("仙侠"), Genre::Xianxia));
    assert!(matches!(parse_genre("都市"), Genre::Urban));
    assert!(matches!(parse_genre(""), Genre::Other));
}

#[test]
fn report_summary_lists_signals() {
    let report = SlumpReport {
        health_score: 40,
        signals: vec![SlumpSignal {
            key: "tension_flat".to_string(),
            label: "张力持平",
            severity: 60,
            detail: "test".to_string(),
        }],
        summary: "诊断完成".to_string(),
    };
    assert_eq!(report.health_score, 40);
    let prompt = build_followup_prompt(&report);
    assert!(prompt.contains("健康分"));
    assert!(prompt.contains("张力持平"));
}

#[test]
fn followup_prompt_text() {
    let report = SlumpReport {
        health_score: 40,
        signals: vec![SlumpSignal {
            key: "k".to_string(),
            label: "张力持平",
            severity: 60,
            detail: "细节".to_string(),
        }],
        summary: String::new(),
    };
    assert_eq!(
        build_followup_prompt(&report),
        "健康分：40 / 100。\n\n信号列表：\n- [60] 张力持平：细节\n\n请给出 3 条具体的拯救建议（每条 1-2 句中文）。\n"
    );
}

#[test]
fn empty_workspace_diagnosis_gives_guidance() {
    let synopses = SynopsisStore::new();
    let facts = FactStore::default();
    let report = diagnose(Some(&synopses), Some(&facts), 6);
    assert!(report.signals.iter().any(|s| s.key == "no_summaries"));
    assert!(report.signals.iter().any(|s| s.key == "no_facts"));
    let max = report.signals.iter().map(|s| s.severity).max().unwrap();
    assert_eq!(report.health_score, 100 - max);
    assert!(report.summary.starts_with("诊断完成："));
}

#[test]
fn unreadable_stores_count_as_no_summaries() {
    // synopses that cannot be loaded count as none; an unreadable fact store
    // raises nothing
    let report = diagnose(None, None, 6);
    assert_eq!(report.signals.len(), 1);
    assert_eq!(report.signals[0].key, "no_summaries");
    assert_eq!(report.health_score, 70);
    assert_eq!(report.summary, "诊断完成：识别到 1 个信号：没有摘要。");
}

#[test]
fn windows_and_counts_are_clamped() {
    assert_eq!(slump_window(None), 6);
    assert_eq!(slump_window(Some(1)), 2);
    assert_eq!(slump_window(Some(99)), 30);
    assert_eq!(branch_count(None), 3);
    assert_eq!(branch_count(Some(9)), 4);
    assert_eq!(branch_count(Some(0)), 2);
}

#[test]
fn reader_genres_and_labels() {
    assert_eq!(parse_genre("SCIFI"), Genre::SciFi);
    assert_eq!(parse_genre("穿越"), Genre::Historical);
    assert_eq!(parse_genre("wuxia"), Genre::Other);
    assert!(reader_label(&Genre::Xianxia).contains("仙侠"));
}

#[test]
fn long_chapters_are_cut_for_the_reader() {
    let short = "正文";
    assert_eq!(truncate_chapter(short), "正文");
    let long = "字".repeat(5000);
    let cut = truncate_chapter(&long);
    assert!(cut.starts_with(&"字".repeat(4000)));
    assert!(cut.chars().count() > 4000);
    assert!(!cut.starts_with(&"字".repeat(4001)));
}

#[test]
fn chapter_files_and_bodies() {
    assert_eq!(chapter_file_name(1, "初入山谷"), "ch_001_初入山谷.md");
    assert_eq!(chapter_file_name(12, ""), "ch_012.md");
    assert_eq!(chapter_file_name(3, "a b/c"), "ch_003_a_b_c.md");
    assert_eq!(chapter_body(2, "标题", "正文"), "# 第2章 标题\n\n正文\n");
    assert_eq!(count_words(" 一 二\n三 "), 3);
    assert_eq!(write_chapter_number(0), None);
    assert_eq!(write_chapter_number(7), Some(7));
    assert!(is_blank("  \n   \n"));
    assert!(!is_blank(" x "));
}

#[test]
fn node_types_parse_case_insensitively() {
    assert_eq!(parse_node_type(Some("hook")), NarrativeNodeType::Hook);
    assert_eq!(parse_node_type(Some("CLIMAX")), NarrativeNodeType::Climax);
    assert_eq!(parse_node_type(Some("whatever")), NarrativeNodeType::Setup);
    assert_eq!(parse_node_type(None), NarrativeNodeType::Setup);
}

#[test]
fn stages_parse() {
    assert_eq!(parse_stage("Draft"), Some(CreationStage::Draft));
    assert_eq!(parse_stage("polish"), Some(CreationStage::Polish));
    assert_eq!(parse_stage("done"), None);
}

#[test]
fn config_titles() {
    assert_eq!(title_from_config("[project]\ntitle = \"山海\"\ngenre = \"x\"\n"), "山海");
    assert_eq!(title_from_config("name = 1\n"), "");
}

#[test]
fn fact_lock_categories_and_constitution() {
    assert_eq!(parse_category(Some("Magic")), WorldCategory::MagicSystem);
    assert_eq!(parse_category(None), WorldCategory::Other);
    assert_eq!(parse_category(Some("weather")), WorldCategory::Other);
    let existing = "# 宪章\n- 已有规则\n";
    assert_eq!(constitution_with_rule(Some(existing), &WorldCategory::Other, "已有规则"), None);
    let added = constitution_with_rule(Some(existing), &WorldCategory::MagicSystem, "没有魔法").unwrap();
    assert!(added.starts_with(existing));
    assert!(added.contains("没有魔法"));
    let fresh = constitution_with_rule(None, &WorldCategory::Other, "没有电").unwrap();
    assert!(fresh.contains("没有电"));
}

#[test]
fn init_names_round_trip() {
    assert_eq!(genre_label(&Genre::SciFi), "scifi");
    assert_eq!(platform_label(&TargetPlatform::Qidian), "qidian");
    assert_eq!(parse_platform("FANQIE"), Some(TargetPlatform::Fanqie));
    assert_eq!(parse_platform("unknown"), Some(TargetPlatform::Other));
    assert!(project_dirs().contains(&"chapters"));
    assert_eq!(genre_id(Genre::Historical), "historical");
}

#[test]
fn outline_requests_and_skeleton() {
    assert!(check_outline_request("", 10).is_some());
    assert!(check_outline_request("第一卷", 0).is_some());
    assert!(check_outline_request("第一卷", 1001).is_some());
    assert!(check_outline_request("第一卷", 1000).is_none());
    assert_eq!(classify_chapter(0, 10).0, NarrativeNodeType::Hook);
    assert_eq!(classify_chapter(9, 10).0, NarrativeNodeType::Climax);
    assert_eq!(classify_chapter(8, 10).0, NarrativeNodeType::Twist);
    assert_eq!(classify_chapter(4, 10).0, NarrativeNodeType::Payoff);
    assert_eq!(classify_chapter(2, 10).1, "冲突 Conflict");
}

#[test]
fn pipeline_steps_parse_and_advance() {
    assert_eq!(parse_step("writer_draft"), Some(PipelineStep::WriterDraft));
    assert_eq!(parse_step("nope"), None);
    let mut r = PipelineRecord::new(Genre::Other);
    apply_run_input(&mut r, Some("xianxia"), Some("outliner_arc"), Some(3));
    assert_eq!(r.genre, Genre::Xianxia);
    assert_eq!(r.step, PipelineStep::OutlinerArc);
    advance_record(&mut r, Some("done"), Some("卷纲完成"));
    assert_eq!(r.completed_steps, vec![PipelineStep::OutlinerArc]);
    assert_eq!(r.step, PipelineStep::OutlinerChapter);
    assert_eq!(r.last_artifact_summary, "卷纲完成");
    advance_record(&mut r, Some("failed"), None);
    assert_eq!(r.status, PipelineStatus::Failed);
    assert_eq!(r.step, PipelineStep::OutlinerChapter);
    let reads = pipeline_reads(&r);
    assert_eq!(reads[0], ".novelwhale/pipeline.json");
}

#[test]
fn fallback_chapter_files() {
    assert_eq!(fallback_chapter_file("chapters/7.md"), "chapters/007.md");
    assert_eq!(fallback_chapter_file("12"), "chapters/012.md");
    assert_eq!(fallback_chapter_file("abc"), "chapters/000.md");
    assert_eq!(parse_u32_chars(&"+42".chars().collect()), Some(42));
    assert_eq!(parse_u32_chars(&"4294967296".chars().collect()), None);
    assert_eq!(parse_u32_chars(&"".chars().collect()), None);
}

#[test]
fn tool_identities() {
    let w = NovelWriteTool;
    assert_eq!(w.name(), "novel_write");
    assert_eq!(w.capabilities(), vec![ToolCapability::WritesFiles, ToolCapability::Sandboxable]);
    assert_eq!(w.approval_requirement(), ApprovalRequirement::Suggest);
    let g = NovelGenreTemplateTool;
    assert_eq!(g.name(), "novel_genre_template");
    assert_eq!(g.capabilities(), vec![ToolCapability::ReadOnly, ToolCapability::Sandboxable]);
    assert_eq!(g.approval_requirement(), ApprovalRequirement::Auto);
    assert!(NovelFactLockTool.description().contains("facts.json"));
}

#[test]
fn tool_results_and_errors() {
    let ok = ToolResult::success("done".to_string());
    assert!(ok.success);
    assert_eq!(ok.content, "done");
    let err = ToolError::missing_field("content".to_string());
    assert!(matches!(err, ToolError::MissingField { ref field } if field == "content"));
}

#[test]
fn locked_rule_store_for_branch_prompt() {
    let mut store = FactStore::default();
    store.world_rules.push(FactWorldRule {
        id: "no_magic".into(),
        rule: "这个世界没有魔法".into(),
        category: "other".into(),
        source_chapter: Some(1),
        immutable: true,
    });
    let facts = novel::tools::branch_explore::branch_facts(&store);
    assert!(facts.contains("这个世界没有魔法"));
}

#[test]
fn build_user_prompt_includes_genre_label() {
    let prompt = build_user_prompt(&Genre::Xianxia, Some(3), Some("正文"), None, None);
    assert!(prompt.contains("仙侠"));
    assert!(prompt.contains("正文"));
    assert!(prompt.contains("请评估第 3 章。"));
}

#[test]
fn reader_prompt_without_text() {
    let prompt = build_user_prompt(&Genre::Other, None, Some("   "), None, None);
    assert!(prompt.contains("一般读者"));
    assert!(prompt.contains("请评估最近一章。"));
    assert!(prompt.contains("（正文缺失，无法判断）"));
}

#[test]
fn missing_field_error_text() {
    let e = ToolError::missing_field("genre".to_string());
    assert!(matches!(&e, ToolError::MissingField { field } if field == "genre"));
    assert_eq!(e.text(), "Failed to validate input: missing required field 'genre'");
}

#[test]
fn tool_error_texts() {
    assert_eq!(
        ToolError::invalid_input("bad".to_string()).text(),
        "Failed to validate input: bad"
    );
    assert_eq!(
        ToolError::execution_failed("boom".to_string()).text(),
        "Failed to execute tool: boom"
    );
    assert_eq!(
        ToolError::Timeout { seconds: 30 }.text(),
        "Failed to execute tool: operation timed out after 30s"
    );
    assert_eq!(
        ToolError::PathEscape { path: std::path::PathBuf::from("../x") }.text(),
        "Failed to resolve path '../x': path escapes workspace"
    );
    assert_eq!(
        ToolError::NotAvailable { message: "m".to_string() }.text(),
        "Failed to locate tool: m"
    );
    assert_eq!(
        ToolError::PermissionDenied { message: "no".to_string() }.text(),
        "Failed to authorize tool execution: no"
    );
}

#[test]
fn context_for_workspace() {
    let ctx = ToolContext::for_workspace(std::path::PathBuf::from("/tmp/ws"));
    assert_eq!(ctx.workspace, std::path::PathBuf::from("/tmp/ws"));
    assert_eq!(ctx.notes_path, std::path::PathBuf::from("/tmp/ws/.novelwhale/notes.md"));
    assert!(!ctx.trust_mode);
    assert!(!ctx.auto_approve);
    assert!(ctx.cancellation_token.is_none());
}

#[test]
fn json_result_is_pretty_printed() {
    let mut m = serde_json::Map::new();
    m.insert("a".to_string(), serde_json::Value::from(1));
    let v = serde_json::Value::Object(m);
    let r = ToolResult::json(&v).unwrap();
    assert!(r.success);
    assert!(r.metadata.is_none());
    assert_eq!(r.content, "{\n  \"a\": 1\n}");
}

#[test]
fn json_result_of_a_value_never_fails() {
    let v = serde_json::Value::Array(vec![serde_json::Value::from("x"), serde_json::Value::Null]);
    let r = ToolResult::json(&v).unwrap();
    assert_eq!(r.content, "[\n  \"x\",\n  null\n]");
}

#[test]
fn search_defaults_and_error_steps() {
    assert_eq!(search_options(None, None), (5, false));
    assert_eq!(search_options(Some(12), Some(true)), (12, true));
    assert_eq!(after_search_error(RetrieverError::NoIndex, false), SearchStep::Retry);
    assert_eq!(after_search_error(RetrieverError::NoIndex, true), SearchStep::AnswerEmpty);
    assert_eq!(after_search_error(RetrieverError::EmptyQuery, false), SearchStep::Fail);
    assert_eq!(after_search_error(RetrieverError::EmptyQuery, true), SearchStep::Fail);
}
