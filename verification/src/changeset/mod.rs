//! Changelogs that are put together from single entries: the patterns that
//! entries and dates are written in, the identifiers of entries, and the
//! settings of a changelog.

pub mod commands;
pub mod config;
pub mod date;
pub mod git;
pub mod id;
pub mod log;
pub mod pattern;
pub mod stream;
pub mod util;
