//! A small line-oriented text search library.
//!
//! The crate splits a corpus into lines, finds the lines that contain a
//! query as a contiguous substring (either exactly or after case folding),
//! and resolves the command-line configuration that selects between the
//! two modes.

pub mod config;
pub mod laws;
pub mod lines;
pub mod search;
pub mod substring;

pub use crate::config::{Config, ConfigError};
pub use crate::search::{run_search, search, search_case_insensitive};
