//! One-way mirroring of a source directory tree into a destination tree:
//! path projection, the copy decision, the file-operation plans and the
//! translation of change notifications into operations.
pub mod app;
pub mod config;
pub mod events;
pub mod path_map;

pub use app::{App, AppError, DestMeta, FsOp, IoFailure, RunStep, Stage, SweepEntry};
pub use config::{Config, ConfigError};
pub use events::{Action, EventKind, EventTranslator};
