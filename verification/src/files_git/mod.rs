//! Git repository inspection: status and diff parsers, branch, stash and
//! commit logic.
pub mod status;
pub mod diff;
pub mod branch;
pub mod stash;
pub mod commit;
pub mod detector;
