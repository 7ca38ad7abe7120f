//! De-AI engine: finds stock phrases that make prose read as machine
//! written, turns the findings into rewrite instructions, and aggregates them
//! into a score.
pub mod dictionary;
pub mod scoring;
pub mod suggestions;
