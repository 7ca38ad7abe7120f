//! The sub-agent pipeline that writes a novel: the five roles, the steps
//! from concept to polish, and the record of where a run stands.
pub mod pipeline;
pub mod roles;
pub mod state;
