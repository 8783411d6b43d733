//! View and behaviour settings with their defaults.
use vstd::prelude::*;
use crate::text::{string_from, views};

verus! {

/// View options for the explorer views.
#[derive(Debug, Clone, PartialEq)]
pub struct ViewConfig {
    /// Whether to display hidden files (starting with '.').
    pub show_hidden_files: bool,
    /// Default view mode: "details", "grid", or "columns".
    pub default_view_mode: String,
    /// Field to sort by: "name", "size", "modified", "type".
    pub sort_by: String,
    /// Sort orientation: true for ascending, false for descending.
    pub sort_ascending: bool,
    /// Dual-pane view mode enabled by default.
    pub dual_pane_enabled: bool,
}

impl Default for ViewConfig {
    fn default() -> (r: Self)
        ensures
            !r.show_hidden_files,
            r.default_view_mode@ == "columns"@,
            r.sort_by@ == "name"@,
            r.sort_ascending,
            !r.dual_pane_enabled,
    {
        ViewConfig {
            show_hidden_files: false,
            default_view_mode: string_from("columns"),
            sort_by: string_from("name"),
            sort_ascending: true,
            dual_pane_enabled: false,
        }
    }
}

/// Application behavior configuration.
#[derive(Debug, Clone, PartialEq)]
pub struct BehaviorConfig {
    /// Prompt confirmation before deleting files.
    pub confirm_delete: bool,
    /// Command line pattern for launching an external terminal.
    pub open_in_terminal_cmd: String,
    /// Single click to open items instead of double click.
    pub single_click_to_open: bool,
    /// Maximum search/scan depth for the file indexer.
    pub max_scan_depth: usize,
}

impl Default for BehaviorConfig {
    fn default() -> (r: Self)
        ensures
            r.confirm_delete,
            r.open_in_terminal_cmd@ == "alacritty --working-directory %p"@,
            !r.single_click_to_open,
            r.max_scan_depth == 20,
    {
        BehaviorConfig {
            confirm_delete: true,
            open_in_terminal_cmd: string_from("alacritty --working-directory %p"),
            single_click_to_open: false,
            max_scan_depth: 20,
        }
    }
}

} // verus!
