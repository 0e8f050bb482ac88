//! The worktree tab of a terminal dashboard for git worktrees.
//!
//! The library holds the state of the tab and decides what every key press does to it: selection,
//! filtering and sorting, removal and sweep, the pickers for a project and for a base branch, and
//! the modal that adds a worktree. It performs nothing itself. Where git, the multiplexer or a
//! background thread has to act, an operation hands out a request, and the outcome comes back as an
//! argument of a later call.

pub mod add_worktree;
pub mod adding;
pub mod age;
pub mod app;
pub mod base;
pub mod collections;
pub mod job;
pub mod listing;
pub mod navigation;
pub mod order;
pub mod paths;
pub mod picker;
pub mod projects;
pub mod removal;
pub mod select;
pub mod sweep;
pub mod text;
pub mod types;
