//! The data that the synchronisation works on.

pub mod config;
pub mod github;
pub mod task;

pub use config::{ProjectMapping, SubtaskMode, SyncConfig};
pub use github::{
    CustomField, GitHubField, GitHubFieldType, GitHubProject, GitHubProjectItem, Project,
    ProjectItem,
};
pub use task::{Task, TaskmasterFile, TaskmasterTasks};
