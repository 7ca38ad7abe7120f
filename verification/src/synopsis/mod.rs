//! Chapter synopses: what they hold, how they are made and where they are
//! kept.
pub mod generator;
pub mod store;
