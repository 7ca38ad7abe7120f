//! Retrieval of the settings most relevant to a scene: the index of
//! documents built from the fact store and the synopses, and the keyword
//! tokenizer and highlighter.
pub mod highlights;
pub mod indexer;
pub mod retriever;
pub mod store;
