//! The novel writing tools: what each one decides, apart from reading its
//! JSON input and the files of the workspace.
pub mod branch_explore;
pub mod chapter_path;
pub mod consistency_check;
pub mod deai_check;
pub mod fact_lock;
pub mod genre_template;
pub mod init;
pub mod outline_build;
pub mod pipeline_run;
pub mod rag_search;
pub mod read_state;
pub mod stage_set;
pub mod synopsis_read;
pub mod write;
pub mod reader_simulate;
pub mod slump_diagnose;
pub mod spec;
