//! The errors of the library.

use crate::text::concat2;
use vstd::prelude::*;

verus! {

/// What can go wrong. Each kind carries the text that says what happened.
#[derive(Debug)]
pub enum TaskMasterError {
    AuthError(String),
    TaskNotFound(String),
    ConfigError(String),
    GitHubError(String),
    WatchError(String),
    IoError(String),
    JsonError(String),
    InvalidTaskFormat(String),
    DependencyCycle(String),
    NotImplemented(String),
}

/// An error, as plain values.
pub enum ErrorView {
    AuthError(Seq<char>),
    TaskNotFound(Seq<char>),
    ConfigError(Seq<char>),
    GitHubError(Seq<char>),
    WatchError(Seq<char>),
    IoError(Seq<char>),
    JsonError(Seq<char>),
    InvalidTaskFormat(Seq<char>),
    DependencyCycle(Seq<char>),
    NotImplemented(Seq<char>),
}

impl View for TaskMasterError {
    type V = ErrorView;

    open spec fn view(&self) -> ErrorView {
        match self {
            TaskMasterError::AuthError(s) => ErrorView::AuthError(s@),
            TaskMasterError::TaskNotFound(s) => ErrorView::TaskNotFound(s@),
            TaskMasterError::ConfigError(s) => ErrorView::ConfigError(s@),
            TaskMasterError::GitHubError(s) => ErrorView::GitHubError(s@),
            TaskMasterError::WatchError(s) => ErrorView::WatchError(s@),
            TaskMasterError::IoError(s) => ErrorView::IoError(s@),
            TaskMasterError::JsonError(s) => ErrorView::JsonError(s@),
            TaskMasterError::InvalidTaskFormat(s) => ErrorView::InvalidTaskFormat(s@),
            TaskMasterError::DependencyCycle(s) => ErrorView::DependencyCycle(s@),
            TaskMasterError::NotImplemented(s) => ErrorView::NotImplemented(s@),
        }
    }
}

impl DeepView for TaskMasterError {
    type V = ErrorView;

    open spec fn deep_view(&self) -> ErrorView {
        self@
    }
}

/// The line that an error is shown as: what kind it is, then its text.
pub open spec fn error_message(e: ErrorView) -> Seq<char> {
    match e {
        ErrorView::AuthError(s) => "GitHub authentication failed: "@ + s,
        ErrorView::TaskNotFound(s) => "Task not found: "@ + s,
        ErrorView::ConfigError(s) => "Configuration error: "@ + s,
        ErrorView::GitHubError(s) => "GitHub API error: "@ + s,
        ErrorView::WatchError(s) => "File watch error: "@ + s,
        ErrorView::IoError(s) => "IO error: "@ + s,
        ErrorView::JsonError(s) => "JSON parsing error: "@ + s,
        ErrorView::InvalidTaskFormat(s) => "Invalid task format: "@ + s,
        ErrorView::DependencyCycle(s) => "Dependency cycle detected: "@ + s,
        ErrorView::NotImplemented(s) => "Not implemented: "@ + s,
    }
}

impl TaskMasterError {
    /// The line that this error is shown as.
    pub fn message(&self) -> (r: String)
        ensures
            r@ == error_message(self@),
    {
        match self {
            TaskMasterError::AuthError(s) => concat2("GitHub authentication failed: ", s.as_str()),
            TaskMasterError::TaskNotFound(s) => concat2("Task not found: ", s.as_str()),
            TaskMasterError::ConfigError(s) => concat2("Configuration error: ", s.as_str()),
            TaskMasterError::GitHubError(s) => concat2("GitHub API error: ", s.as_str()),
            TaskMasterError::WatchError(s) => concat2("File watch error: ", s.as_str()),
            TaskMasterError::IoError(s) => concat2("IO error: ", s.as_str()),
            TaskMasterError::JsonError(s) => concat2("JSON parsing error: ", s.as_str()),
            TaskMasterError::InvalidTaskFormat(s) => concat2("Invalid task format: ", s.as_str()),
            TaskMasterError::DependencyCycle(s) => concat2(
                "Dependency cycle detected: ",
                s.as_str(),
            ),
            TaskMasterError::NotImplemented(s) => concat2("Not implemented: ", s.as_str()),
        }
    }
}

} // verus!
