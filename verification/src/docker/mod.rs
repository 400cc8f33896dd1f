//! Running a build inside a container: the engine, the paths that it can
//! mount, and the commands that are sent to it.

pub mod engine;
pub mod inspect;
pub mod lifecycle;
pub mod local;
pub mod options;
pub mod plan;
pub mod remote;
pub mod shared;

pub use self::engine::{Engine, EngineType};
pub use self::shared::{Directories, MountDetail, MountFinder};
