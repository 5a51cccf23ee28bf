//! Verified core of `dig`, a git wrapper for stacked-branch workflows.
pub mod adopt;
pub mod branch;
pub mod clean;
pub mod commit;
pub mod error;
pub mod init;
pub mod merge;
pub mod operation;
pub mod render;
pub mod store;
pub mod text;
pub mod tree;
pub mod ui;
pub mod workflow;
