//! Cross-compilation inside containers: the engine, the paths it can mount,
//! the commands sent to it, and the lifetime of the containers and volumes
//! of one build.

pub mod cargo;
pub mod changeset;
pub mod cli;
pub mod command;
pub mod commands;
pub mod cross_toml;
pub mod docker;
pub mod errors;
pub mod lock;
pub mod path;
pub mod rustup;
pub mod semver;
pub mod target;
pub mod text;
