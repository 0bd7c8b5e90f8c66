//! Workspace identity codec and rearrangement logic for a tiling window
//! manager's workspace model.
//!
//! A workspace is addressed by a composite identity made of an optional
//! numeric slot and an optional human-readable name, encoded by the window
//! manager as a single display label.  This crate decodes such labels,
//! re-encodes identities for use inside protocol commands, and computes the
//! ordered command batches that bind, rename, show, move and swap workspaces
//! over a snapshot of the current workspace state.  It performs no I/O: the
//! surrounding program reads the snapshot and submits the commands.

pub mod commands;
pub mod digits;
pub mod laws;
pub mod ops;
pub mod workspace;

pub use commands::join_commands;
pub use digits::i32_string;
pub use ops::{
    bind, find_current, find_or_create_by_name, find_or_create_by_number, list, move_to, rename,
    show, show_by_name, show_by_number, swap, OpError,
};
pub use workspace::{Workspace, WorkspaceRecord};
