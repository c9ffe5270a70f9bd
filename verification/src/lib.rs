//! Incremental synchronisation of a hierarchical task list with the items
//! of a remote project board.
//!
//! The library decides; it sends nothing itself. `delta` finds what changed
//! since the last run, `state` keeps which task is which remote item,
//! `fields` maps the fields of a task to those of an item, `subtasks` keeps
//! the hierarchy, and `sync` holds the run: for each task what is to be done,
//! and what the outcome does to the figures and to the state. The caller
//! talks to the remote side and to the disk and reports back.

pub mod auth;
pub mod clock;
pub mod config;
pub mod delta;
pub mod delta_laws;
pub mod error;
pub mod fields;
pub mod github;
pub mod json;
pub mod models;
pub mod progress;
pub mod state;
pub mod strmap;
pub mod subtasks;
pub mod sync;
pub mod taskmaster;
pub mod text;
pub mod watcher;

pub use error::TaskMasterError;
pub use models::config::SyncConfig;
pub use models::task::Task;
pub use sync::{SyncDirection, SyncEngine, SyncOptions};
