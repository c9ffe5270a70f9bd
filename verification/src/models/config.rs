//! The settings of the synchronisation.

use crate::clock::Timestamp;
use crate::strmap::StrMap;
use crate::text::owned;
use vstd::prelude::*;

verus! {

/// How the subtasks of a task reach the remote project.
#[derive(Clone, Copy, Debug, PartialEq, Eq, Structural)]
pub enum SubtaskMode {
    /// As a checklist in the body of the parent's item.
    Nested,
    /// As items of their own.
    Separate,
}

impl Default for SubtaskMode {
    fn default() -> (r: SubtaskMode)
        ensures
            r == SubtaskMode::Nested,
    {
        SubtaskMode::Nested
    }
}

/// The remote project that a tag is synchronised with.
#[derive(Debug)]
pub struct ProjectMapping {
    pub project_number: i32,
    pub project_id: String,
    /// Where items are created as issues, as `owner/name`.
    pub repository: Option<String>,
    pub subtask_mode: SubtaskMode,
    pub field_mappings: Option<StrMap<String>>,
}

/// What a project mapping holds, as plain values.
pub struct ProjectMappingView {
    pub project_number: i32,
    pub project_id: Seq<char>,
    pub repository: Option<Seq<char>>,
    pub subtask_mode: SubtaskMode,
    pub field_mappings: Option<Seq<(Seq<char>, Seq<char>)>>,
}

impl View for ProjectMapping {
    type V = ProjectMappingView;

    open spec fn view(&self) -> ProjectMappingView {
        ProjectMappingView {
            project_number: self.project_number,
            project_id: self.project_id@,
            repository: self.repository.deep_view(),
            subtask_mode: self.subtask_mode,
            field_mappings: match self.field_mappings {
                Some(m) => Some(m.pairs()),
                None => None,
            },
        }
    }
}

impl DeepView for ProjectMapping {
    type V = ProjectMappingView;

    open spec fn deep_view(&self) -> ProjectMappingView {
        self@
    }
}

/// A rule that gives tasks to an agent.
#[derive(Debug)]
pub struct AssignmentRule {
    pub pattern: String,
    pub priority: i32,
}

/// The services of an agent and its name on the remote side.
#[derive(Debug)]
pub struct AgentMapping {
    pub services: Vec<String>,
    pub github_username: String,
    pub rules: Vec<AssignmentRule>,
}

impl View for AgentMapping {
    type V = Seq<char>;

    open spec fn view(&self) -> Seq<char> {
        self.github_username@
    }
}

impl DeepView for AgentMapping {
    type V = Seq<char>;

    open spec fn deep_view(&self) -> Seq<char> {
        self.github_username@
    }
}

/// The settings document.
#[derive(Debug)]
pub struct SyncConfig {
    pub version: String,
    pub organization: String,
    pub project_mappings: StrMap<ProjectMapping>,
    pub last_sync: StrMap<Timestamp>,
    pub agent_mapping: StrMap<AgentMapping>,
}

impl Default for SyncConfig {
    fn default() -> (c: SyncConfig)
        ensures
            c.version@ == "1.0.0"@,
            c.organization@.len() == 0,
            c.project_mappings.pairs().len() == 0,
            c.last_sync.pairs().len() == 0,
            c.agent_mapping.pairs().len() == 0,
    {
        SyncConfig {
            version: owned("1.0.0"),
            organization: String::new(),
            project_mappings: StrMap::new(),
            last_sync: StrMap::new(),
            agent_mapping: StrMap::new(),
        }
    }
}

} // verus!
