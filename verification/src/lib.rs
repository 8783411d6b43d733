//! SWAL Files: the verified core of a file manager (virtual filesystem model,
//! tab and pane state, fuzzy search, git output parsers, preview decoders,
//! tagging rules and command-bar logic).
use vstd::prelude::*;

pub mod text;
pub mod files_core;
pub mod files_git;
pub mod files_app;
pub mod files_agent;
pub mod files_preview;

verus! {

} // verus!
