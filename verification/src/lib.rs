//! A versioned build, package and deploy workflow, decided here and carried
//! out by whoever drives it.
//!
//! The library holds the version model, the reading of the history store,
//! the checks before a build, the text of every command, and the state
//! machine that orders them. It performs no input or output: the driver
//! runs commands and moves bytes, and reports back what happened.

pub mod commands;
pub mod config;
pub mod error;
pub mod history;
pub mod pipeline;
pub mod pipeline_laws;
pub mod preflight;
pub mod resolve;
pub mod table;
pub mod text;
pub mod version;
pub mod version_laws;
