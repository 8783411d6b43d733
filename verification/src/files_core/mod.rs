//! Virtual filesystem model, tabs and panes, fuzzy search and column view state.
pub mod fuzzy_search;
pub mod types;
pub mod tabs;
pub mod scanner;
pub mod miller_columns;
pub mod watcher;
pub mod config;
