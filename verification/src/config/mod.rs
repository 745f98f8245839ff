//! Command-line options, saved settings and workspaces.

pub mod cli;
pub mod settings;
pub mod workspace;
