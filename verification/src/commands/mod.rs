//! The computations behind each command of the command-line tool.
pub mod completions;
pub mod init;
pub mod log;
pub mod status;
pub mod help;
pub mod types_cmd;
pub mod uninstall;
