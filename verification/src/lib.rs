use vstd::prelude::*;

pub mod agents;
pub mod consistency;
pub mod deai;
pub mod engine;
pub mod facts;
pub mod foreign;
pub mod genre;
pub mod model;
pub mod rag;
pub mod shell;
pub mod synopsis;
pub mod tally;
pub mod text;
pub mod tools;

verus! {
}
