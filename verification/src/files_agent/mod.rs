//! Agent-side logic: tagging rules, natural-language queries, the file
//! dependency graph and the memory service settings.
pub mod tagger;
pub mod query;
pub mod graph;
pub mod client;
