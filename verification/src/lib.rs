//! Semantic documentation graphs for Rust crates.

pub mod document;
pub mod evidence;
pub mod graph;
pub mod iri;
pub mod json;
pub mod knowledge;
pub mod lexical;
pub mod literal;
pub mod order;
pub mod reading;
pub mod receipt;
pub mod run;
pub mod rustdoc;
pub mod text;
