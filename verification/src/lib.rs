//! Commit-message workbench: the state machine, text editing and parsing
//! logic behind an interactive commit-message tool.

pub mod ai;
pub mod app;
pub mod cli;
pub mod clipboard;
pub mod clock;
pub mod display;
pub mod git;
pub mod semver;
pub mod session;
pub mod strings;
pub mod text;
