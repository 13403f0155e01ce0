//! A registry of terminal sessions.
//!
//! [`registry::TerminalSessionRegistry`] keeps the sessions of all projects,
//! their latest output and the events that are due to those who listen. What it
//! is, and what each operation does to it, is stated in [`model`]; what holds of
//! it as a whole is stated in [`laws`]. Ptys, processes, files and threads are
//! the caller's: the registry says what to do and is told what came of it.

pub mod host;
mod index;
pub mod launch;
pub mod laws;
pub mod laws_answers;
pub mod laws_effects;
pub mod laws_values;
pub mod laws_views;
pub mod listing;
pub mod model;
pub mod paths;
pub mod registry;
pub mod shell;
pub mod tail;
pub mod text;
pub mod types;
pub mod workdir;
