//! Conventional Commits tooling: message linting, message assembly,
//! configuration resolution, hook-file maintenance and the interactive
//! picker's state machine.
pub mod text;
pub mod types;
pub mod ui;
pub mod lint;
pub mod commit;
pub mod wizard;
pub mod hooks;
pub mod picker;
pub mod config;
pub mod commands;
pub mod git;
pub mod line_edit;
pub mod cli;
