//! Genre templates: per-genre cliché blacklists, consistency rules, and
//! pacing / scene / arc templates.
pub mod cliches;
pub mod rules;
pub mod templates;
