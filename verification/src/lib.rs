//! Symbol indexing for source trees.

pub mod comments;
pub mod errors;
pub mod graph;
pub mod indexer;
pub mod languages;
pub mod laws;
pub mod output;
pub mod parsing;
pub mod symbols;
pub mod syntax;
pub mod text;
pub mod walk;
