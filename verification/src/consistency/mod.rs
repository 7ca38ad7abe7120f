//! Consistency checking of a chapter against the fact store: locked world
//! rules, departed characters, duplicate names and repeated quantity
//! phrases.
pub mod probes;
pub mod rules;
pub mod checker;
