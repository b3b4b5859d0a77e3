//! Current wall-clock time in a list of named time zones: alias resolution,
//! line rendering, the command-line decisions, the configuration file and
//! the refresh loop.
pub mod alias;
pub mod render;
pub mod shell;
pub mod refresh;
pub mod config;
