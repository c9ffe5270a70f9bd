//! The synchronisation engine: what is sent for a task, and the settings and
//! checks of a run. The run itself, step by step, is in `run`.

use crate::config::ConfigManager;
use crate::error::{ErrorView, TaskMasterError};
use crate::fields::{assignee_of, FieldManager, FieldMappingView};
use crate::models::config::{ProjectMapping, ProjectMappingView, SubtaskMode};
use crate::models::github::{
    FieldValueContent, FieldValueContentView, FieldValueView, Project, ProjectItem,
    ProjectView,
};
use crate::models::task::{lemma_subtasks_view, TaggedTasks, Task, TaskView};
use crate::progress::SyncStats;
use crate::state::{StateTracker, SyncStateView};
use crate::strmap::{lookup, put, StrMap};
use crate::subtasks::{
    cycle_error, first_cyclic, optional_section, separate_issue, should_be_separate, with_child,
    SubtaskConfig, SubtaskHandler,
};
use crate::text::{
    clone_opt, concat2, concat3, contains_seq, contains_str, decimal, decimal_string,
    has_prefix, owned, signed_decimal, signed_decimal_string, split, split_on, starts_with,
    str_eq, strip_suffixes, trim_end_matches,
};
use vstd::prelude::*;

pub mod duplicates;
pub mod laws;
pub mod plan;
pub mod run;

verus! {

/// Which way a synchronisation goes.
#[derive(Clone, Copy, Debug, PartialEq, Eq, Structural)]
pub enum SyncDirection {
    ToGitHub,
    FromGitHub,
    Bidirectional,
}

/// The choices of one run.
#[derive(Clone, Copy, Debug)]
pub struct SyncOptions {
    pub dry_run: bool,
    pub force: bool,
    pub direction: SyncDirection,
    pub batch_size: usize,
    pub include_archived: bool,
    pub use_delta_sync: bool,
    pub quiet: bool,
}

impl Default for SyncOptions {
    fn default() -> (o: SyncOptions)
        ensures
            !o.dry_run,
            !o.force,
            o.direction == SyncDirection::ToGitHub,
            o.batch_size == 50,
            !o.include_archived,
            o.use_delta_sync,
            !o.quiet,
    {
        SyncOptions {
            dry_run: false,
            force: false,
            direction: SyncDirection::ToGitHub,
            batch_size: 50,
            include_archived: false,
            use_delta_sync: true,
            quiet: false,
        }
    }
}

impl SyncOptions {
    /// Whether the run deals with the changes since the last run only: it
    /// does unless that is switched off or a full run is forced.
    pub open spec fn delta(self) -> bool {
        self.use_delta_sync && !self.force
    }

    /// Whether the run deals with the changes since the last run only.
    pub fn uses_delta(&self) -> (r: bool)
        ensures
            r == self.delta(),
    {
        self.use_delta_sync && !self.force
    }

    /// Whether the state is to be stored at the end of the run: it is unless
    /// the run is a dry run.
    pub fn persists_state(&self) -> (r: bool)
        ensures
            r == !self.dry_run,
    {
        !self.dry_run
    }
}

/// How a conflict between the two sides is settled.
#[derive(Debug)]
pub enum ConflictResolution {
    UseTaskMaster,
    UseGitHub,
    Skip,
    /// With this value, written as text.
    Manual(String),
}

/// A field on which the two sides disagree. The values are written as text.
#[derive(Debug)]
pub struct SyncConflict {
    pub task_id: String,
    pub field: String,
    pub taskmaster_value: String,
    pub github_value: String,
    pub resolution: ConflictResolution,
}

/// The ways of settling conflicts.
#[derive(Clone, Copy, Debug, PartialEq, Eq, Structural)]
pub enum ConflictStrategy {
    AlwaysTaskMaster,
    AlwaysGitHub,
    Interactive,
    ByTimestamp,
}

/// What a run gave.
#[derive(Debug)]
pub struct SyncResult {
    pub stats: SyncStats,
    pub conflicts: Vec<SyncConflict>,
    pub project_number: i32,
}

/// The subtasks that stay in the body of their parent, in order: all of them
/// where subtasks cannot become items, else those that do not become one.
pub open spec fn inline_subtasks(subtasks: Seq<TaskView>, enhanced: bool, c: SubtaskConfig) -> Seq<
    TaskView,
>
    decreases subtasks.len(),
{
    if subtasks.len() == 0 {
        Seq::empty()
    } else {
        let rest = inline_subtasks(subtasks.drop_last(), enhanced, c);
        if enhanced && separate_issue(subtasks.last(), c) {
            rest
        } else {
            rest.push(subtasks.last())
        }
    }
}

/// The subtasks that become items of their own, in order.
pub open spec fn separate_subtasks(subtasks: Seq<TaskView>, enhanced: bool, c: SubtaskConfig) -> Seq<
    TaskView,
>
    decreases subtasks.len(),
{
    if subtasks.len() == 0 {
        Seq::empty()
    } else {
        let rest = separate_subtasks(subtasks.drop_last(), enhanced, c);
        if enhanced && separate_issue(subtasks.last(), c) {
            rest.push(subtasks.last())
        } else {
            rest
        }
    }
}

/// The box of a checklist line: ticked for a subtask that is done.
pub open spec fn checkbox(status: Seq<char>) -> Seq<char> {
    if status == "done"@ {
        "[x]"@
    } else {
        "[ ]"@
    }
}

/// The checklist line of the subtask at position `index`, counted from 0.
pub open spec fn checklist_line(index: nat, t: TaskView) -> Seq<char> {
    decimal(index + 1) + ". "@ + checkbox(t.status) + " "@ + t.title + " - "@ + t.status + "\n"@
}

/// The numbered checklist of the subtasks that stay in the body.
pub open spec fn checklist(items: Seq<TaskView>) -> Seq<char>
    decreases items.len(),
{
    if items.len() == 0 {
        Seq::empty()
    } else {
        checklist(items.drop_last()) + checklist_line((items.len() - 1) as nat, items.last())
    }
}

/// The line that names a subtask which becomes an item of its own.
pub open spec fn separate_line(t: TaskView) -> Seq<char> {
    "- "@ + t.title + " _(will be created as separate issue)_\n"@
}

/// The lines that name the subtasks which become items of their own.
pub open spec fn separate_lines(items: Seq<TaskView>) -> Seq<char>
    decreases items.len(),
{
    if items.len() == 0 {
        Seq::empty()
    } else {
        separate_lines(items.drop_last()) + separate_line(items.last())
    }
}

/// The part of the body that tells of the subtasks: nothing without
/// subtasks, else a heading, the checklist, and under a heading of their own
/// the subtasks that become items, where there are any.
pub open spec fn subtasks_section(subtasks: Seq<TaskView>, enhanced: bool, c: SubtaskConfig) -> Seq<
    char,
> {
    if subtasks.len() == 0 {
        Seq::empty()
    } else {
        let separate = separate_subtasks(subtasks, enhanced, c);
        "\n\n## Subtasks\n"@ + checklist(inline_subtasks(subtasks, enhanced, c)) + if separate.len()
            > 0 {
            "\n### Complex Subtasks (Separate Issues)\n"@ + separate_lines(separate)
        } else {
            Seq::empty()
        }
    }
}

/// The body of the item of a task: description, details, test strategy and
/// subtasks.
pub open spec fn task_body(t: TaskView, enhanced: bool, c: SubtaskConfig) -> Seq<char> {
    t.description + optional_section("\n\n## Details\n"@, t.details) + optional_section(
        "\n\n## Test Strategy\n"@,
        t.test_strategy,
    ) + subtasks_section(t.subtasks, enhanced, c)
}

/// The id of the task that an item belongs to: the text of its first field
/// value that is a text of the field `TM_ID`.
pub open spec fn tm_id_of(values: Seq<FieldValueView>) -> Option<Seq<char>>
    decreases values.len(),
{
    if values.len() == 0 {
        None
    } else {
        match values[0].value {
            FieldValueContentView::Text(id) => if values[0].field.name == "TM_ID"@ {
                Some(id)
            } else {
                tm_id_of(values.drop_first())
            },
            _ => tm_id_of(values.drop_first()),
        }
    }
}

/// The last of the pieces of `path` between slashes.
pub open spec fn last_segment(path: Seq<char>) -> Seq<char> {
    split_on(path, "/"@).last()
}

/// The repository that a remote address names: what follows the colon of
/// `git@github.com:owner/name.git`, or what follows `github.com/` in an
/// address that holds it once, in both cases without `.git` at the end.
pub open spec fn repository_in_url(url: Seq<char>) -> Option<Seq<char>> {
    let by_colon = split_on(url, ":"@);
    let by_host = split_on(url, "github.com/"@);
    if has_prefix(url, "git@github.com:"@) && by_colon.len() == 2 {
        Some(strip_suffixes(by_colon[1], ".git"@))
    } else if contains_seq(url, "github.com/"@) && by_host.len() == 2 {
        Some(strip_suffixes(by_host[1], ".git"@))
    } else {
        None
    }
}

/// The repository of the working directory: the one that the environment
/// names, else the one of the remote address, if it names one.
pub open spec fn detected_repository(env: Option<Seq<char>>, remote_url: Option<Seq<char>>) -> Option<
    Seq<char>,
> {
    match env {
        Some(r) => Some(r),
        None => match remote_url {
            Some(u) => repository_in_url(u),
            None => None,
        },
    }
}

/// The title of a project that is created for a tag: named after the
/// repository of the tag's mapping, or after the tag where the mapping has
/// none; without mapping, after the repository that was detected, or as a
/// plain project of the tag.
pub open spec fn project_title(
    tag: Seq<char>,
    mapping: Option<ProjectMappingView>,
    detected: Option<Seq<char>>,
) -> Seq<char> {
    match mapping {
        Some(m) => "TaskMaster - "@ + match m.repository {
            Some(r) => last_segment(r),
            None => tag,
        } + " ("@ + tag + ")"@,
        None => fallback_project_title(tag, detected),
    }
}

/// The title of a project that is created in place of one that was not
/// found.
pub open spec fn fallback_project_title(tag: Seq<char>, detected: Option<Seq<char>>) -> Seq<char> {
    match detected {
        Some(r) => "TaskMaster - "@ + last_segment(r) + " ("@ + tag + ")"@,
        None => "TaskMaster Project - "@ + tag,
    }
}

/// The repository that a created project is linked to: that of the tag's
/// mapping, else the one that was detected.
pub open spec fn project_repository(
    mapping: Option<ProjectMappingView>,
    detected: Option<Seq<char>>,
) -> Option<Seq<char>> {
    match mapping {
        Some(m) => match m.repository {
            Some(r) => Some(r),
            None => detected,
        },
        None => detected,
    }
}

/// The mapping of a tag after a project was created for it: a new mapping to
/// the project where the tag had none, else the old one with the number and
/// id of the project, and with the repository where it had none.
pub open spec fn mapping_after_creation(
    mapping: Option<ProjectMappingView>,
    project: ProjectView,
    repository: Option<Seq<char>>,
) -> ProjectMappingView {
    match mapping {
        None => ProjectMappingView {
            project_number: project.number,
            project_id: project.id,
            repository: repository,
            subtask_mode: SubtaskMode::Nested,
            field_mappings: None,
        },
        Some(m) => ProjectMappingView {
            project_number: project.number,
            project_id: project.id,
            repository: match m.repository {
                Some(r) => Some(r),
                None => repository,
            },
            ..m
        },
    }
}

/// The error for a project that was not found and is not to be created.
pub open spec fn project_not_found(project_number: int, tag: Seq<char>, org: Seq<char>) -> ErrorView {
    ErrorView::ConfigError(
        "Project #"@ + signed_decimal(project_number)
            + " not found. To auto-create a project:\n\nOption 1: Use project number '0' to auto-create:\n   task-master-sync sync "@
            + tag
            + " 0\n\nOption 2: Set environment variable:\n   export TASKMASTER_AUTO_CREATE_PROJECT=true\n\nOption 3: Create manually:\n   task-master-sync create-project 'Project Name' --org "@
            + org + "\n   task-master-sync setup-project <PROJECT_NUMBER>"@,
    )
}

/// What is to be done about the project of a run.
#[derive(Clone, Copy, Debug, PartialEq, Eq, Structural)]
pub enum ProjectStep {
    /// Use the project that was found.
    Use,
    /// Create a project under the title of the tag's mapping.
    Create,
    /// Create a project in place of the one that was not found.
    CreateInstead,
    /// Give up: the project was not found.
    Fail,
}

/// What is to be done about the project: number 0 asks for a new one; any
/// other number names a project, which is used where it was found, created
/// where it was not and the environment allows that with `true`, and else an
/// error.
pub open spec fn project_step(project_number: int, found: bool, auto_create: Option<Seq<char>>) -> ProjectStep {
    if project_number == 0 {
        ProjectStep::Create
    } else if found {
        ProjectStep::Use
    } else if auto_create == Some("true"@) {
        ProjectStep::CreateInstead
    } else {
        ProjectStep::Fail
    }
}

/// What a new item asks of the remote side.
#[derive(Debug)]
pub struct ItemCreation {
    /// The repository in which the item is created as an issue; without one
    /// the item is a draft.
    pub repository: Option<String>,
    pub title: String,
    pub body: String,
    pub assignees: Option<Vec<String>>,
}

/// The creation of an item, as plain values.
pub struct ItemCreationView {
    pub repository: Option<Seq<char>>,
    pub title: Seq<char>,
    pub body: Seq<char>,
    pub assignees: Option<Seq<Seq<char>>>,
}

impl View for ItemCreation {
    type V = ItemCreationView;

    open spec fn view(&self) -> ItemCreationView {
        ItemCreationView {
            repository: self.repository.deep_view(),
            title: self.title@,
            body: self.body@,
            assignees: self.assignees.deep_view(),
        }
    }
}

/// What the content of an existing item is replaced with.
#[derive(Debug)]
pub struct ItemUpdate {
    /// The id of the content of the item.
    pub content_id: String,
    pub title: String,
    pub body: String,
    /// Who the item is assigned to afterwards, if anybody.
    pub assignee: Option<String>,
}

/// The update of an item, as plain values.
pub struct ItemUpdateView {
    pub content_id: Seq<char>,
    pub title: Seq<char>,
    pub body: Seq<char>,
    pub assignee: Option<Seq<char>>,
}

impl View for ItemUpdate {
    type V = ItemUpdateView;

    open spec fn view(&self) -> ItemUpdateView {
        ItemUpdateView {
            content_id: self.content_id@,
            title: self.title@,
            body: self.body@,
            assignee: self.assignee.deep_view(),
        }
    }
}

impl DeepView for ItemUpdate {
    type V = ItemUpdateView;

    open spec fn deep_view(&self) -> ItemUpdateView {
        self@
    }
}

/// The engine of the synchronisation of one tag.
pub struct SyncEngine {
    config: ConfigManager,
    fields: FieldManager,
    subtasks: SubtaskHandler,
    state: StateTracker,
    project: Option<Project>,
    project_mapping: Option<ProjectMapping>,
    subtask_config: SubtaskConfig,
    pub tag: String,
}

impl SyncEngine {
    /// The tag that the engine synchronises.
    pub closed spec fn tag_view(&self) -> Seq<char> {
        self.tag@
    }

    /// The settings of the engine.
    pub closed spec fn settings(&self) -> ConfigManager {
        self.config
    }

    /// The registry of field mappings.
    pub closed spec fn registry(&self) -> Seq<(Seq<char>, FieldMappingView)> {
        self.fields.mappings()
    }

    /// The project of the engine.
    pub closed spec fn project_view(&self) -> Option<ProjectView> {
        self.project.deep_view()
    }

    /// The mapping of the tag to its project.
    pub closed spec fn mapping(&self) -> Option<ProjectMappingView> {
        self.project_mapping.deep_view()
    }

    /// The synchronisation state.
    pub closed spec fn state_view(&self) -> SyncStateView {
        self.state@
    }

    /// Whether subtasks can become items of their own.
    pub closed spec fn enhanced(&self) -> bool {
        self.subtasks.enhanced()
    }

    /// The children of each parent in the hierarchy.
    pub closed spec fn hierarchy(&self) -> Seq<(Seq<char>, Seq<Seq<char>>)> {
        self.subtasks.children()
    }

    /// When a subtask becomes an item of its own.
    pub closed spec fn subtask_settings(&self) -> SubtaskConfig {
        self.subtask_config
    }

    /// An engine for the tag `tag` and the project `project`, with the
    /// settings and the state that were read. Fails if and only if the
    /// settings name no organisation.
    pub fn new(config: ConfigManager, tag: &str, project: Project, state: StateTracker) -> (r:
        Result<SyncEngine, TaskMasterError>)
        ensures
            config.org().len() == 0 ==> r is Err && r->Err_0@ == ErrorView::ConfigError(
                "Organization not configured"@,
            ),
            config.org().len() > 0 ==> r is Ok && r->Ok_0.tag_view() == tag@ && r->Ok_0.project_view()
                == Some(project@) && r->Ok_0.state_view() == state@ && r->Ok_0.mapping() == lookup(
                config.mappings(),
                tag@,
            ) && r->Ok_0.registry() == crate::fields::default_mappings() && r->Ok_0.enhanced()
                && r->Ok_0.hierarchy().len() == 0,
    {
        if config.organization().is_empty() {
            return Err(TaskMasterError::ConfigError(owned("Organization not configured")));
        }
        let project_mapping = match config.get_project_mapping(tag) {
            Some(m) => Some(clone_mapping(m)),
            None => None,
        };
        Ok(
            SyncEngine {
                config,
                fields: FieldManager::new(),
                subtasks: SubtaskHandler::new(),
                state,
                project: Some(project),
                project_mapping,
                subtask_config: SubtaskHandler::default_config(),
                tag: owned(tag),
            },
        )
    }

    /// The registry of field mappings and what is known of the remote fields.
    pub fn fields(&self) -> (f: &FieldManager)
        ensures
            f.mappings() == self.registry(),
    {
        &self.fields
    }

    /// The registry, to be changed.
    pub fn fields_mut(&mut self) -> (f: &mut FieldManager)
        ensures
            f.mappings() == old(self).registry(),
            final(self).registry() == final(f).mappings(),
            final(self).state_view() == old(self).state_view(),
            final(self).project_view() == old(self).project_view(),
            final(self).mapping() == old(self).mapping(),
            final(self).enhanced() == old(self).enhanced(),
            final(self).subtask_settings() == old(self).subtask_settings(),
            final(self).tag_view() == old(self).tag_view(),
    {
        &mut self.fields
    }

    /// The synchronisation state.
    pub fn state(&self) -> (s: &StateTracker)
        ensures
            s@ == self.state_view(),
    {
        &self.state
    }

    /// The synchronisation state, to be changed.
    pub fn state_mut(&mut self) -> (s: &mut StateTracker)
        ensures
            s@ == old(self).state_view(),
            final(self).state_view() == final(s)@,
            final(self).registry() == old(self).registry(),
            final(self).project_view() == old(self).project_view(),
            final(self).mapping() == old(self).mapping(),
            final(self).enhanced() == old(self).enhanced(),
            final(self).subtask_settings() == old(self).subtask_settings(),
            final(self).tag_view() == old(self).tag_view(),
    {
        &mut self.state
    }

    /// The settings.
    pub fn config(&self) -> (c: &ConfigManager)
        ensures
            *c == self.settings(),
    {
        &self.config
    }

    /// The project of the engine.
    pub fn project(&self) -> (p: Option<&Project>)
        ensures
            p.deep_view() == self.project_view(),
    {
        self.project.as_ref()
    }

    /// The number of the project, or 0 without project.
    pub fn project_number(&self) -> (n: i32)
        ensures
            n == match self.project_view() {
                Some(p) => p.number,
                None => 0,
            },
    {
        match &self.project {
            Some(p) => p.number,
            None => 0,
        }
    }

    /// Checks that a run can start. Fails if and only if the engine has no
    /// project.
    pub fn validate_sync_setup(&self) -> (r: Result<(), TaskMasterError>)
        ensures
            self.project_view() is Some ==> r is Ok,
            self.project_view() is None ==> r is Err && r->Err_0@ == ErrorView::ConfigError(
                "No project configured"@,
            ),
    {
        if self.project.is_none() {
            return Err(TaskMasterError::ConfigError(owned("No project configured")));
        }
        Ok(())
    }

    /// Opens a synchronisation of the tag `tag`: checks that the engine has a
    /// project, that the direction is towards the remote side, that the task
    /// list has the tag, and that no task of the tag reaches a cycle in the
    /// hierarchy, and hands back the tasks of the tag. Fails with the first of
    /// these that does not hold, before anything is sent.
    pub fn sync<'a>(
        &self,
        tag: &str,
        options: &SyncOptions,
        all_tasks: &'a StrMap<TaggedTasks>,
    ) -> (r: Result<&'a TaggedTasks, TaskMasterError>)
        ensures
            match sync_opening(
                self.project_view() is Some,
                options.direction,
                all_tasks.pairs(),
                tag@,
                self.hierarchy(),
            ) {
                Ok(tasks) => r is Ok && r->Ok_0@ == tasks,
                Err(e) => r is Err && r->Err_0@ == e,
            },
    {
        match self.validate_sync_setup() {
            Ok(()) => {},
            Err(e) => {
                return Err(e);
            },
        }
        match options.direction {
            SyncDirection::ToGitHub => {},
            SyncDirection::FromGitHub => {
                return Err(
                    TaskMasterError::NotImplemented(owned("Sync from GitHub not yet implemented")),
                );
            },
            SyncDirection::Bidirectional => {
                return Err(
                    TaskMasterError::NotImplemented(owned("Bidirectional sync not yet implemented")),
                );
            },
        }
        match all_tasks.get(tag) {
            Some(tasks) => {
                match self.subtasks.validate_hierarchy(tasks.tasks.as_slice()) {
                    Ok(()) => Ok(tasks),
                    Err(e) => Err(e),
                }
            },
            None => Err(TaskMasterError::InvalidTaskFormat(concat3("Tag '", tag, "' not found"))),
        }
    }

    /// The keeper of the hierarchy.
    pub fn subtasks(&self) -> (h: &SubtaskHandler)
        ensures
            h.children() == self.hierarchy(),
            h.enhanced() == self.enhanced(),
    {
        &self.subtasks
    }

    /// Records that the subtask `subtask_id` of `parent_id` became the remote
    /// item `project_item_id`.
    pub fn record_subtask(&mut self, parent_id: &str, subtask_id: &str, project_item_id: &str)
        ensures
            final(self).hierarchy() == with_child(old(self).hierarchy(), parent_id@, subtask_id@),
            crate::strmap::distinct_keys(old(self).hierarchy()),
            crate::strmap::distinct_keys(final(self).hierarchy()),
            final(self).enhanced() == old(self).enhanced(),
            final(self).registry() == old(self).registry(),
            final(self).state_view() == old(self).state_view(),
            final(self).project_view() == old(self).project_view(),
            final(self).mapping() == old(self).mapping(),
            final(self).subtask_settings() == old(self).subtask_settings(),
            final(self).tag_view() == old(self).tag_view(),
    {
        self.subtasks.record_subtask(parent_id, subtask_id, project_item_id);
    }

    /// The body of the item of a task.
    pub fn format_task_body(&self, task: &Task) -> (r: String)
        ensures
            r@ == task_body(task@, self.enhanced(), self.subtask_settings()),
    {
        self.format_task_body_enhanced(task)
    }

    /// The body of the item of a task: description, details, test strategy, a
    /// checklist of the subtasks that stay in the body, and the names of
    /// those that become items of their own.
    pub fn format_task_body_enhanced(&self, task: &Task) -> (r: String)
        ensures
            r@ == task_body(task@, self.enhanced(), self.subtask_settings()),
    {
        format_body(task, self.subtasks.is_enhanced_mode(), &self.subtask_config)
    }

    /// Whether a subtask becomes an item of its own.
    pub fn should_create_separate_subtask_issue(&self, subtask: &Task) -> (r: bool)
        ensures
            r == separate_issue(subtask@, self.subtask_settings()),
    {
        should_be_separate(subtask, &self.subtask_config)
    }

    /// The id of the task that an item belongs to, if the item names one.
    pub fn extract_tm_id(&self, item: &ProjectItem) -> (r: Option<String>)
        ensures
            r.deep_view() == tm_id_of(item@.field_values),
    {
        item_tm_id(item)
    }

    /// What the creation of the item of a task asks of the remote side: an
    /// issue in the repository of the tag's mapping, or a draft without one.
    /// `agents` is the agents' table, if one could be read.
    pub fn creation_request(&self, task: &Task, agents: Option<&StrMap<String>>) -> (r:
        ItemCreation)
        ensures
            r@ == (ItemCreationView {
                repository: match self.mapping() {
                    Some(m) => m.repository,
                    None => None,
                },
                title: task@.title,
                body: task_body(task@, self.enhanced(), self.subtask_settings()),
                assignees: match assignee_of(
                    self.registry(),
                    match agents {
                        Some(a) => Some(a.pairs()),
                        None => None,
                    },
                    task@,
                ) {
                    Some(a) => Some(seq![a]),
                    None => None,
                },
            }),
    {
        let body = self.format_task_body_enhanced(task);
        let assignees = match self.fields.get_github_assignee(task, agents) {
            Some(a) => {
                let mut list: Vec<String> = Vec::new();
                list.push(a);
                assert(list.deep_view() =~= seq![a@]);
                Some(list)
            },
            None => None,
        };
        let repository = match &self.project_mapping {
            Some(m) => clone_opt(&m.repository),
            None => None,
        };
        ItemCreation { repository, title: task.title.clone(), body, assignees }
    }

    /// What the content of the item of a task is replaced with: nothing where
    /// the state does not know the content of the item, else title and body
    /// of the task, and its assignee.
    pub fn update_request(&self, task: &Task, agents: Option<&StrMap<String>>) -> (r: Option<
        ItemUpdate,
    >)
        ensures
            r.deep_view() == match lookup(self.state_view().task_metadata, task@.id) {
                Some(m) => match m.draft_issue_id {
                    Some(content_id) => Some(
                        ItemUpdateView {
                            content_id: content_id,
                            title: task@.title,
                            body: task_body(task@, self.enhanced(), self.subtask_settings()),
                            assignee: assignee_of(
                                self.registry(),
                                match agents {
                                    Some(a) => Some(a.pairs()),
                                    None => None,
                                },
                                task@,
                            ),
                        },
                    ),
                    None => None,
                },
                None => None,
            },
    {
        match self.state.get_task_metadata(task.id.as_str()) {
            Some(m) => match m.draft_issue_id {
                Some(content_id) => Some(
                    ItemUpdate {
                        content_id,
                        title: task.title.clone(),
                        body: self.format_task_body_enhanced(task),
                        assignee: self.fields.get_github_assignee(task, agents),
                    },
                ),
                None => None,
            },
            None => None,
        }
    }

    /// The repository that a remote address names.
    pub fn parse_github_url(url: &str) -> (r: Option<String>)
        ensures
            r.deep_view() == repository_in_url(url@),
    {
        if starts_with(url, "git@github.com:") {
            let parts = split(url, ":");
            if parts.len() == 2 {
                assert(parts.deep_view()[1] == parts@[1]@);
                return Some(trim_end_matches(parts[1].as_str(), ".git"));
            }
        }
        if contains_str(url, "github.com/") {
            let parts = split(url, "github.com/");
            if parts.len() == 2 {
                assert(parts.deep_view()[1] == parts@[1]@);
                return Some(trim_end_matches(parts[1].as_str(), ".git"));
            }
        }
        None
    }

    /// The repository of the working directory: the one that the environment
    /// names, else the one of the remote address, if it names one.
    pub fn detect_repository(env: Option<String>, remote_url: Option<&str>) -> (r: Option<String>)
        ensures
            r.deep_view() == detected_repository(env.deep_view(), remote_url.deep_view()),
    {
        match env {
            Some(r) => Some(r),
            None => match remote_url {
                Some(u) => SyncEngine::parse_github_url(u),
                None => None,
            },
        }
    }

    /// What is to be done about the project of a run.
    pub fn project_step(project_number: i32, found: bool, auto_create: Option<&str>) -> (r:
        ProjectStep)
        ensures
            r == project_step(project_number as int, found, auto_create.deep_view()),
    {
        if project_number == 0 {
            ProjectStep::Create
        } else if found {
            ProjectStep::Use
        } else {
            match auto_create {
                Some(v) => if str_eq(v, "true") {
                    ProjectStep::CreateInstead
                } else {
                    ProjectStep::Fail
                },
                None => ProjectStep::Fail,
            }
        }
    }

    /// The title of a project that is created for the tag `tag`.
    pub fn project_title(tag: &str, mapping: Option<&ProjectMapping>, detected: Option<&str>) -> (r:
        String)
        ensures
            r@ == project_title(tag@, mapping.deep_view(), detected.deep_view()),
    {
        match mapping {
            Some(m) => {
                let mut r = owned("TaskMaster - ");
                match &m.repository {
                    Some(repo) => {
                        let name = last_piece(repo.as_str());
                        r.append(name.as_str());
                    },
                    None => {
                        r.append(tag);
                    },
                }
                r.append(" (");
                r.append(tag);
                r.append(")");
                r
            },
            None => SyncEngine::fallback_project_title(tag, detected),
        }
    }

    /// The title of a project that is created in place of one that was not
    /// found.
    pub fn fallback_project_title(tag: &str, detected: Option<&str>) -> (r: String)
        ensures
            r@ == fallback_project_title(tag@, detected.deep_view()),
    {
        match detected {
            Some(repo) => {
                let mut r = owned("TaskMaster - ");
                let name = last_piece(repo);
                r.append(name.as_str());
                r.append(" (");
                r.append(tag);
                r.append(")");
                r
            },
            None => concat2("TaskMaster Project - ", tag),
        }
    }

    /// The repository that a created project is linked to.
    pub fn project_repository(mapping: Option<&ProjectMapping>, detected: Option<&str>) -> (r:
        Option<String>)
        ensures
            r.deep_view() == project_repository(mapping.deep_view(), detected.deep_view()),
    {
        let from_mapping = match mapping {
            Some(m) => clone_opt(&m.repository),
            None => None,
        };
        match from_mapping {
            Some(r) => Some(r),
            None => match detected {
                Some(d) => Some(owned(d)),
                None => None,
            },
        }
    }

    /// Notes in the settings that `project` was created for the tag `tag`.
    pub fn register_created_project(
        config: &mut ConfigManager,
        tag: &str,
        project: &Project,
        repository: Option<String>,
    )
        ensures
            final(config).mappings() == put(
                old(config).mappings(),
                tag@,
                mapping_after_creation(
                    lookup(old(config).mappings(), tag@),
                    project@,
                    repository.deep_view(),
                ),
            ),
            final(config).path() == old(config).path(),
            final(config).org() == old(config).org(),
            final(config).last_syncs() == old(config).last_syncs(),
    {
        let updated = match config.get_project_mapping(tag) {
            None => ProjectMapping {
                project_number: project.number,
                project_id: project.id.clone(),
                repository,
                subtask_mode: SubtaskMode::Nested,
                field_mappings: None,
            },
            Some(m) => {
                let old_mapping = clone_mapping(m);
                ProjectMapping {
                    project_number: project.number,
                    project_id: project.id.clone(),
                    repository: match old_mapping.repository {
                        Some(r) => Some(r),
                        None => repository,
                    },
                    subtask_mode: old_mapping.subtask_mode,
                    field_mappings: old_mapping.field_mappings,
                }
            },
        };
        config.set_project_mapping(tag, updated);
    }

    /// The error for a project that was not found and is not to be created.
    pub fn project_not_found_error(project_number: i32, tag: &str, org: &str) -> (e:
        TaskMasterError)
        ensures
            e@ == project_not_found(project_number as int, tag@, org@),
    {
        let mut text = owned("Project #");
        let number = signed_decimal_string(project_number);
        text.append(number.as_str());
        text.append(
            " not found. To auto-create a project:\n\nOption 1: Use project number '0' to auto-create:\n   task-master-sync sync ",
        );
        text.append(tag);
        text.append(
            " 0\n\nOption 2: Set environment variable:\n   export TASKMASTER_AUTO_CREATE_PROJECT=true\n\nOption 3: Create manually:\n   task-master-sync create-project 'Project Name' --org ",
        );
        text.append(org);
        text.append("\n   task-master-sync setup-project <PROJECT_NUMBER>");
        TaskMasterError::ConfigError(text)
    }

    /// What a run gave: its figures, with the time at which it ended, no
    /// conflicts, and the number of the project.
    pub fn finish(&self, stats: SyncStats, ended: crate::clock::Timestamp) -> (r: SyncResult)
        ensures
            r.stats@ == (crate::progress::SyncStatsView { end_time: Some(ended), ..stats@ }),
            r.conflicts@.len() == 0,
            r.project_number == match self.project_view() {
                Some(p) => p.number,
                None => 0,
            },
    {
        let mut stats = stats;
        stats.end_time = Some(ended);
        SyncResult { stats, conflicts: Vec::new(), project_number: self.project_number() }
    }
}

/// What the opening of a synchronisation gives: the tasks of the tag, or the
/// first fault among a missing project, a direction other than towards the
/// remote side, an unknown tag, and a cycle in the hierarchy.
pub open spec fn sync_opening(
    has_project: bool,
    direction: SyncDirection,
    all_tasks: Seq<(Seq<char>, Seq<TaskView>)>,
    tag: Seq<char>,
    hierarchy: Seq<(Seq<char>, Seq<Seq<char>>)>,
) -> Result<Seq<TaskView>, ErrorView> {
    if !has_project {
        Err(ErrorView::ConfigError("No project configured"@))
    } else {
        match direction {
            SyncDirection::FromGitHub => Err(
                ErrorView::NotImplemented("Sync from GitHub not yet implemented"@),
            ),
            SyncDirection::Bidirectional => Err(
                ErrorView::NotImplemented("Bidirectional sync not yet implemented"@),
            ),
            SyncDirection::ToGitHub => match lookup(all_tasks, tag) {
                Some(tasks) => match first_cyclic(hierarchy, tasks) {
                    Some(id) => Err(cycle_error(id)),
                    None => Ok(tasks),
                },
                None => Err(crate::delta::tag_not_found(tag)),
            },
        }
    }
}

/// A copy of the field mappings of a tag.
fn clone_string_map(m: &StrMap<String>) -> (r: StrMap<String>)
    ensures
        r.pairs() == m.pairs(),
{
    let mut r: StrMap<String> = StrMap::new();
    let n = m.len();
    let ghost all = m.pairs();
    let mut i: usize = 0;
    while i < n
        invariant
            i <= n,
            n == all.len(),
            all == m.pairs(),
            crate::strmap::distinct_keys(all),
            r.pairs() == all.subrange(0, i as int),
        decreases n - i,
    {
        let ghost before = r.pairs();
        proof {
            crate::strmap::lemma_key_index(before, all[i as int].0);
            if let Some(j) = crate::strmap::key_index(before, all[i as int].0) {
                assert(before[j] == all[j]);
            }
        }
        r.insert(m.key_at(i).clone(), m.value_at(i).clone());
        assert(r.pairs() =~= all.subrange(0, i + 1));
        i = i + 1;
    }
    assert(all.subrange(0, i as int) =~= all);
    r
}

/// A copy of a project mapping.
pub fn clone_mapping(m: &ProjectMapping) -> (r: ProjectMapping)
    ensures
        r@ == m@,
{
    ProjectMapping {
        project_number: m.project_number,
        project_id: m.project_id.clone(),
        repository: clone_opt(&m.repository),
        subtask_mode: m.subtask_mode,
        field_mappings: match &m.field_mappings {
            Some(f) => Some(clone_string_map(f)),
            None => None,
        },
    }
}

/// The last of the pieces of `path` between slashes.
fn last_piece(path: &str) -> (r: String)
    ensures
        r@ == last_segment(path@),
{
    let parts = split(path, "/");
    let k = parts.len() - 1;
    assert(parts.deep_view()[k as int] == parts@[k as int]@);
    parts[k].clone()
}

/// The id of the task that an item belongs to, if the item names one.
#[verifier::loop_isolation(false)]
pub fn item_tm_id(item: &ProjectItem) -> (r: Option<String>)
    ensures
        r.deep_view() == tm_id_of(item@.field_values),
{
    let ghost all = item@.field_values;
    let mut i: usize = 0;
    assert(all.subrange(0, all.len() as int) =~= all);
    while i < item.field_values.len()
        invariant
            i <= item.field_values.len(),
            tm_id_of(all) == tm_id_of(all.subrange(i as int, all.len() as int)),
        decreases item.field_values.len() - i,
    {
        let ghost cur = all.subrange(i as int, all.len() as int);
        assert(cur[0] == item.field_values@[i as int]@);
        assert(cur.drop_first() =~= all.subrange(i + 1, all.len() as int));
        let fv = &item.field_values[i];
        if str_eq(fv.field.name.as_str(), "TM_ID") {
            match &fv.value {
                FieldValueContent::Text(id) => {
                    return Some(id.clone());
                },
                _ => {},
            }
        }
        i = i + 1;
    }
    None
}

/// Appends `heading` and the section, where the section is there.
fn append_optional(body: &mut String, heading: &str, section: &Option<String>)
    ensures
        final(body)@ == old(body)@ + optional_section(heading@, section.deep_view()),
{
    let ghost start = body@;
    match section {
        Some(text) => {
            body.append(heading);
            body.append(text.as_str());
            assert(body@ =~= start + (heading@ + text@));
        },
        None => {
            assert(body@ =~= start + Seq::<char>::empty());
        },
    }
}

/// Appends the checklist line of the subtask at position `index`.
fn append_checklist_line(body: &mut String, index: usize, subtask: &Task)
    requires
        index < usize::MAX,
    ensures
        final(body)@ == old(body)@ + checklist_line(index as nat, subtask@),
{
    let ghost start = body@;
    let number = decimal_string(index + 1);
    body.append(number.as_str());
    body.append(". ");
    if str_eq(subtask.status.as_str(), "done") {
        body.append("[x]");
    } else {
        body.append("[ ]");
    }
    body.append(" ");
    body.append(subtask.title.as_str());
    body.append(" - ");
    body.append(subtask.status.as_str());
    body.append("\n");
    assert(body@ =~= start + checklist_line(index as nat, subtask@));
}

/// Appends the line that names a subtask which becomes an item of its own.
fn append_separate_line(body: &mut String, subtask: &Task)
    ensures
        final(body)@ == old(body)@ + separate_line(subtask@),
{
    let ghost start = body@;
    body.append("- ");
    body.append(subtask.title.as_str());
    body.append(" _(will be created as separate issue)_\n");
    assert(body@ =~= start + separate_line(subtask@));
}

/// Appends the checklist of the subtasks that stay in the body, and hands
/// back the others.
fn append_checklist<'a>(
    body: &mut String,
    subtasks: &'a Vec<Task>,
    enhanced: bool,
    config: &SubtaskConfig,
) -> (separate: Vec<&'a Task>)
    ensures
        final(body)@ == old(body)@ + checklist(
            inline_subtasks(subtasks.deep_view(), enhanced, *config),
        ),
        separate.deep_view() == separate_subtasks(subtasks.deep_view(), enhanced, *config),
{
    let ghost start = body@;
    let ghost subs = subtasks.deep_view();
    let mut separate: Vec<&Task> = Vec::new();
    let mut inline_count: usize = 0;
    let mut i: usize = 0;
    assert(subs.subrange(0, 0) =~= Seq::<TaskView>::empty());
    assert(start + Seq::<char>::empty() =~= start);
    assert(separate.deep_view() =~= Seq::<TaskView>::empty());
    while i < subtasks.len()
        invariant
            i <= subtasks.len(),
            subs == subtasks.deep_view(),
            inline_count <= i,
            inline_count == inline_subtasks(subs.subrange(0, i as int), enhanced, *config).len(),
            body@ == start + checklist(
                inline_subtasks(subs.subrange(0, i as int), enhanced, *config),
            ),
            separate.deep_view() == separate_subtasks(subs.subrange(0, i as int), enhanced, *config),
        decreases subtasks.len() - i,
    {
        let subtask = &subtasks[i];
        proof {
            assert(subs.subrange(0, i + 1).drop_last() =~= subs.subrange(0, i as int));
            assert(subs.subrange(0, i + 1).last() == subtask@);
        }
        let ghost before = body@;
        let ghost done = inline_subtasks(subs.subrange(0, i as int), enhanced, *config);
        let ghost chosen = separate.deep_view();
        if enhanced && should_be_separate(subtask, config) {
            separate.push(subtask);
            assert(separate.deep_view() =~= chosen.push(subtask@));
        } else {
            append_checklist_line(body, inline_count, subtask);
            proof {
                let next = done.push(subtask@);
                assert(next.drop_last() =~= done);
                assert(next.last() == subtask@);
                assert(before + checklist_line(inline_count as nat, subtask@) =~= start + (
                checklist(done) + checklist_line(inline_count as nat, subtask@)));
            }
            inline_count = inline_count + 1;
        }
        i = i + 1;
    }
    assert(subs.subrange(0, i as int) =~= subs);
    separate
}

/// Appends the lines that name the subtasks which become items of their own.
fn append_separate_lines(body: &mut String, separate: &Vec<&Task>)
    ensures
        final(body)@ == old(body)@ + separate_lines(separate.deep_view()),
{
    let ghost start = body@;
    let ghost sep = separate.deep_view();
    let mut k: usize = 0;
    assert(sep.subrange(0, 0) =~= Seq::<TaskView>::empty());
    assert(start + Seq::<char>::empty() =~= start);
    while k < separate.len()
        invariant
            k <= separate.len(),
            separate.deep_view() == sep,
            body@ == start + separate_lines(sep.subrange(0, k as int)),
        decreases separate.len() - k,
    {
        let subtask = separate[k];
        let ghost before = body@;
        proof {
            assert(sep.subrange(0, k + 1).drop_last() =~= sep.subrange(0, k as int));
            assert(sep.subrange(0, k + 1).last() == sep[k as int]);
            assert(separate.deep_view()[k as int] == subtask@);
        }
        append_separate_line(body, subtask);
        assert(before + separate_line(subtask@) =~= start + (separate_lines(
            sep.subrange(0, k as int),
        ) + separate_line(subtask@)));
        k = k + 1;
    }
    assert(sep.subrange(0, k as int) =~= sep);
}

/// Appends the part of the body that tells of the subtasks.
fn append_subtasks(body: &mut String, subtasks: &Vec<Task>, enhanced: bool, config: &SubtaskConfig)
    ensures
        final(body)@ == old(body)@ + subtasks_section(subtasks.deep_view(), enhanced, *config),
{
    let ghost start = body@;
    let ghost subs = subtasks.deep_view();
    if subtasks.len() == 0 {
        assert(body@ =~= start + Seq::<char>::empty());
        return ;
    }
    body.append("\n\n## Subtasks\n");
    let separate = append_checklist(body, subtasks, enhanced, config);
    let ghost mid = body@;
    if separate.len() > 0 {
        body.append("\n### Complex Subtasks (Separate Issues)\n");
        append_separate_lines(body, &separate);
        assert(body@ =~= start + subtasks_section(subs, enhanced, *config));
    } else {
        assert(separate.deep_view().len() == 0);
        assert(body@ =~= start + subtasks_section(subs, enhanced, *config));
    }
}

/// The body of the item of a task.
pub fn format_body(task: &Task, enhanced: bool, config: &SubtaskConfig) -> (r: String)
    ensures
        r@ == task_body(task@, enhanced, *config),
{
    let mut body = task.description.clone();
    append_optional(&mut body, "\n\n## Details\n", &task.details);
    append_optional(&mut body, "\n\n## Test Strategy\n", &task.test_strategy);
    proof {
        lemma_subtasks_view(*task);
    }
    append_subtasks(&mut body, &task.subtasks, enhanced, config);
    body
}

} // verus!
