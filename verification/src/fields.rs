//! Field mapping: which field of a task goes to which field of the remote
//! project, and in what form.

use crate::error::{ErrorView, TaskMasterError};
use crate::models::github::{
    CustomField, CustomFieldView, FieldOption, FieldOptionView, GitHubFieldType,
};
use crate::json::{at_key, json_document_of, JsonValue, JsonView};
use crate::models::task::{Task, TaskView};
use crate::strmap::{lookup, put, StrMap};
use crate::sync::SyncOptions;
use crate::text::{
    concat2, contains_seq, contains_str, join, join_with, lowercase_of, owned, str_eq,
    to_lowercase,
};
use vstd::prelude::*;

verus! {

/// How a value is changed on its way to the remote field.
#[derive(Debug)]
pub enum FieldTransformer {
    StatusMapper,
    PriorityMapper,
    DateFormatter,
    Custom(String),
}

/// A transformer, as plain values.
pub enum FieldTransformerView {
    StatusMapper,
    PriorityMapper,
    DateFormatter,
    Custom(Seq<char>),
}

impl View for FieldTransformer {
    type V = FieldTransformerView;

    open spec fn view(&self) -> FieldTransformerView {
        match self {
            FieldTransformer::StatusMapper => FieldTransformerView::StatusMapper,
            FieldTransformer::PriorityMapper => FieldTransformerView::PriorityMapper,
            FieldTransformer::DateFormatter => FieldTransformerView::DateFormatter,
            FieldTransformer::Custom(s) => FieldTransformerView::Custom(s@),
        }
    }
}

impl DeepView for FieldTransformer {
    type V = FieldTransformerView;

    open spec fn deep_view(&self) -> FieldTransformerView {
        self@
    }
}

impl Clone for FieldTransformer {
    fn clone(&self) -> (r: FieldTransformer)
        ensures
            r@ == self@,
    {
        match self {
            FieldTransformer::StatusMapper => FieldTransformer::StatusMapper,
            FieldTransformer::PriorityMapper => FieldTransformer::PriorityMapper,
            FieldTransformer::DateFormatter => FieldTransformer::DateFormatter,
            FieldTransformer::Custom(s) => FieldTransformer::Custom(s.clone()),
        }
    }
}

/// One entry of the registry: a field of a task and the remote field it goes to.
#[derive(Debug)]
pub struct FieldMapping {
    pub taskmaster_field: String,
    pub github_field: String,
    pub field_type: GitHubFieldType,
    pub transformer: Option<FieldTransformer>,
}

/// A field mapping, as plain values.
pub struct FieldMappingView {
    pub taskmaster_field: Seq<char>,
    pub github_field: Seq<char>,
    pub field_type: GitHubFieldType,
    pub transformer: Option<FieldTransformerView>,
}

impl View for FieldMapping {
    type V = FieldMappingView;

    open spec fn view(&self) -> FieldMappingView {
        FieldMappingView {
            taskmaster_field: self.taskmaster_field@,
            github_field: self.github_field@,
            field_type: self.field_type,
            transformer: self.transformer.deep_view(),
        }
    }
}

impl DeepView for FieldMapping {
    type V = FieldMappingView;

    open spec fn deep_view(&self) -> FieldMappingView {
        self@
    }
}

impl Clone for FieldMapping {
    fn clone(&self) -> (r: FieldMapping)
        ensures
            r@ == self@,
    {
        FieldMapping {
            taskmaster_field: self.taskmaster_field.clone(),
            github_field: self.github_field.clone(),
            field_type: self.field_type,
            transformer: match &self.transformer {
                Some(t) => Some(t.clone()),
                None => None,
            },
        }
    }
}

/// A field that the remote project must have.
#[derive(Clone, Copy, Debug)]
pub struct RequiredField {
    pub name: &'static str,
    pub field_type: GitHubFieldType,
    pub description: &'static str,
}

/// The remote label of a status: each of the eight known words has its
/// label, and any other status, one that differs from a known word in the
/// case of a letter too, is handed on as it is. A finished task goes to QA,
/// never to done: only a person closes a task.
pub open spec fn status_label(status: Seq<char>) -> Seq<char> {
    if status == "pending"@ {
        "Todo"@
    } else if status == "in-progress"@ {
        "In Progress"@
    } else if status == "review"@ || status == "qa"@ || status == "qa-review"@ {
        "QA Review"@
    } else if status == "done"@ || status == "completed"@ {
        "QA Review"@
    } else if status == "blocked"@ {
        "Blocked"@
    } else {
        status
    }
}

/// `status` is one of the eight words that have a label.
pub open spec fn is_known_status(status: Seq<char>) -> bool {
    status == "pending"@ || status == "in-progress"@ || status == "review"@ || status == "qa"@
        || status == "qa-review"@ || status == "done"@ || status == "completed"@ || status
        == "blocked"@
}

/// Status transform totality. Each of the eight known words is given its
/// label, any other status is handed on unchanged, and no label is `Done`.
pub proof fn lemma_status_label_table(status: Seq<char>)
    ensures
        status_label("pending"@) == "Todo"@,
        status_label("in-progress"@) == "In Progress"@,
        status_label("review"@) == "QA Review"@,
        status_label("qa"@) == "QA Review"@,
        status_label("qa-review"@) == "QA Review"@,
        status_label("done"@) == "QA Review"@,
        status_label("completed"@) == "QA Review"@,
        status_label("blocked"@) == "Blocked"@,
        !is_known_status(status) ==> status_label(status) == status,
        is_known_status(status) ==> status_label(status) != "Done"@,
        !is_known_status("Pending"@),
{
    reveal_strlit("pending");
    reveal_strlit("in-progress");
    reveal_strlit("review");
    reveal_strlit("qa");
    reveal_strlit("qa-review");
    reveal_strlit("done");
    reveal_strlit("completed");
    reveal_strlit("blocked");
    reveal_strlit("Todo");
    reveal_strlit("In Progress");
    reveal_strlit("QA Review");
    reveal_strlit("Blocked");
    reveal_strlit("Done");
    reveal_strlit("Pending");
    assert("pending"@.len() == 7);
    assert("in-progress"@.len() == 11);
    assert("review"@.len() == 6);
    assert("qa"@.len() == 2);
    assert("qa-review"@.len() == 9);
    assert("done"@.len() == 4);
    assert("completed"@.len() == 9);
    assert("blocked"@.len() == 7);
    assert("Pending"@.len() == 7);
    assert("pending"@[0] == 'p');
    assert("blocked"@[0] == 'b');
    assert("Pending"@[0] == 'P');
    assert("qa-review"@[0] == 'q');
    assert("completed"@[0] == 'c');
    assert("Todo"@[0] == 'T');
    assert("In Progress"@[0] == 'I');
    assert("QA Review"@[0] == 'Q');
    assert("Blocked"@[0] == 'B');
    assert("Done"@[0] == 'D');
}

/// The default registry: id, status, priority, dependencies, test strategy
/// and assignee, in this order.
pub open spec fn default_mappings() -> Seq<(Seq<char>, FieldMappingView)> {
    seq![
        (
            "id"@,
            FieldMappingView {
                taskmaster_field: "id"@,
                github_field: "TM_ID"@,
                field_type: GitHubFieldType::Text,
                transformer: None,
            },
        ),
        (
            "status"@,
            FieldMappingView {
                taskmaster_field: "status"@,
                github_field: "Status"@,
                field_type: GitHubFieldType::SingleSelect,
                transformer: Some(FieldTransformerView::StatusMapper),
            },
        ),
        (
            "priority"@,
            FieldMappingView {
                taskmaster_field: "priority"@,
                github_field: "Priority"@,
                field_type: GitHubFieldType::SingleSelect,
                transformer: Some(FieldTransformerView::PriorityMapper),
            },
        ),
        (
            "dependencies"@,
            FieldMappingView {
                taskmaster_field: "dependencies"@,
                github_field: "Dependencies"@,
                field_type: GitHubFieldType::Text,
                transformer: None,
            },
        ),
        (
            "testStrategy"@,
            FieldMappingView {
                taskmaster_field: "testStrategy"@,
                github_field: "Test Strategy"@,
                field_type: GitHubFieldType::Text,
                transformer: None,
            },
        ),
        (
            "assignee"@,
            FieldMappingView {
                taskmaster_field: "assignee"@,
                github_field: "Agent"@,
                field_type: GitHubFieldType::SingleSelect,
                transformer: None,
            },
        ),
    ]
}

/// The registry with the six default mappings set, one after the other: each
/// in place where the registry has a mapping for that field, else at the end.
pub open spec fn with_defaults(registry: Seq<(Seq<char>, FieldMappingView)>) -> Seq<
    (Seq<char>, FieldMappingView),
> {
    let d = default_mappings();
    let a = put(registry, d[0].0, d[0].1);
    let b = put(a, d[1].0, d[1].1);
    let c = put(b, d[2].0, d[2].1);
    let e = put(c, d[3].0, d[3].1);
    let f = put(e, d[4].0, d[4].1);
    put(f, d[5].0, d[5].1)
}

/// The kind of a mapping that is read from the settings: a choice for the
/// three fields of that kind, text for any other.
pub open spec fn configured_type(github_field: Seq<char>) -> GitHubFieldType {
    if github_field == "Status"@ || github_field == "Priority"@ || github_field == "Agent"@ {
        GitHubFieldType::SingleSelect
    } else {
        GitHubFieldType::Text
    }
}

/// The registry after the mappings of the settings were added, in their order.
pub open spec fn with_configured(
    registry: Seq<(Seq<char>, FieldMappingView)>,
    configured: Seq<(Seq<char>, Seq<char>)>,
) -> Seq<(Seq<char>, FieldMappingView)>
    decreases configured.len(),
{
    if configured.len() == 0 {
        registry
    } else {
        let e = configured.last();
        put(
            with_configured(registry, configured.drop_last()),
            e.0,
            FieldMappingView {
                taskmaster_field: e.0,
                github_field: e.1,
                field_type: configured_type(e.1),
                transformer: None,
            },
        )
    }
}

/// Whether a kind of field and a transformer go together.
pub open spec fn compatible(field_type: GitHubFieldType, transformer: Option<FieldTransformerView>) -> bool {
    match (field_type, transformer) {
        (GitHubFieldType::SingleSelect, Some(FieldTransformerView::StatusMapper)) => true,
        (GitHubFieldType::SingleSelect, Some(FieldTransformerView::PriorityMapper)) => true,
        (GitHubFieldType::SingleSelect, None) => true,
        (GitHubFieldType::Text, None) => true,
        (GitHubFieldType::Text, Some(FieldTransformerView::DateFormatter)) => true,
        (GitHubFieldType::Number, None) => true,
        (GitHubFieldType::Date, None) => true,
        (GitHubFieldType::Iteration, None) => true,
        _ => false,
    }
}

/// The error for a mapping whose kind and transformer do not go together.
pub open spec fn incompatible_mapping(field: Seq<char>) -> ErrorView {
    ErrorView::InvalidTaskFormat("Incompatible field type and transformer for field: "@ + field)
}

/// The remote fields by name. Of two fields with one name the later one
/// counts, at the place of the first.
pub open spec fn fields_by_name(fields: Seq<CustomFieldView>) -> Seq<(Seq<char>, CustomFieldView)>
    decreases fields.len(),
{
    if fields.len() == 0 {
        Seq::empty()
    } else {
        put(fields_by_name(fields.drop_last()), fields.last().name, fields.last())
    }
}

/// The names of the choices in lower case.
pub open spec fn lowered_names(options: Seq<FieldOptionView>) -> Seq<Seq<char>> {
    Seq::new(options.len(), |i: int| lowercase_of(options[i].name))
}

/// The id of the first choice that has `wanted` at its place in `names`.
pub open spec fn option_by_name(
    options: Seq<FieldOptionView>,
    names: Seq<Seq<char>>,
    wanted: Seq<char>,
) -> Option<Seq<char>>
    decreases options.len(),
{
    if options.len() == 0 || names.len() != options.len() {
        None
    } else if names[0] == wanted {
        Some(options[0].id)
    } else {
        option_by_name(options.drop_first(), names.drop_first(), wanted)
    }
}

/// The id of the first choice whose name is `lowered_name` in lower case.
pub open spec fn matching_option(options: Seq<FieldOptionView>, lowered_name: Seq<char>) -> Option<
    Seq<char>,
> {
    option_by_name(options, lowered_names(options), lowered_name)
}

/// The id of the choice named `option_name` of the field `field_name`,
/// whatever the case of the letters.
pub open spec fn option_id_of(
    fields: Seq<(Seq<char>, CustomFieldView)>,
    field_name: Seq<char>,
    option_name: Seq<char>,
) -> Option<Seq<char>> {
    match lookup(fields, field_name) {
        Some(f) => match f.options {
            Some(options) => matching_option(options, lowercase_of(option_name)),
            None => None,
        },
        None => None,
    }
}

/// The value that a task gives to the field of a mapping for its status:
/// the label of the status where the mapping asks for it, else the status.
pub open spec fn mapped_status(m: FieldMappingView, t: TaskView) -> Seq<char> {
    if m.transformer == Some(FieldTransformerView::StatusMapper) {
        status_label(t.status)
    } else {
        t.status
    }
}

/// The value that a task gives to the field of a mapping for a priority,
/// given the priority in lower case.
pub open spec fn mapped_priority_with(m: FieldMappingView, p: Seq<char>, lowered: Seq<char>) -> Seq<
    char,
> {
    if m.transformer == Some(FieldTransformerView::PriorityMapper) {
        lowered
    } else {
        p
    }
}

/// An optional string in lower case.
pub open spec fn opt_lowercase(o: Option<Seq<char>>) -> Option<Seq<char>> {
    match o {
        Some(s) => Some(lowercase_of(s)),
        None => None,
    }
}

/// `acc` with `value` under the remote field of the mapping for `field`, where
/// the registry has that mapping and the task has the value.
pub open spec fn with_field(
    acc: Seq<(Seq<char>, Seq<char>)>,
    mapping: Option<FieldMappingView>,
    value: Option<Seq<char>>,
) -> Seq<(Seq<char>, Seq<char>)> {
    match (mapping, value) {
        (Some(m), Some(v)) => put(acc, m.github_field, v),
        _ => acc,
    }
}

/// The remote fields of a task with their values: id, status, priority,
/// assignee, dependencies (with commas between them) and test strategy, each
/// under the remote name that the registry gives it. A field without mapping
/// is left out, and so is a field that the task does not have.
pub open spec fn mapped_fields(registry: Seq<(Seq<char>, FieldMappingView)>, t: TaskView) -> Seq<
    (Seq<char>, Seq<char>),
> {
    mapped_fields_with(registry, t, opt_lowercase(t.priority))
}

/// The remote fields of a task with their values, given the priority of the
/// task in lower case where it has one.
pub open spec fn mapped_fields_with(
    registry: Seq<(Seq<char>, FieldMappingView)>,
    t: TaskView,
    lowered_priority: Option<Seq<char>>,
) -> Seq<(Seq<char>, Seq<char>)> {
    let m_id = lookup(registry, "id"@);
    let m_status = lookup(registry, "status"@);
    let m_priority = lookup(registry, "priority"@);
    let m_assignee = lookup(registry, "assignee"@);
    let m_deps = lookup(registry, "dependencies"@);
    let m_test = lookup(registry, "testStrategy"@);
    let a = with_field(Seq::empty(), m_id, Some(t.id));
    let b = with_field(
        a,
        m_status,
        match m_status {
            Some(m) => Some(mapped_status(m, t)),
            None => None,
        },
    );
    let c = with_field(
        b,
        m_priority,
        match (m_priority, t.priority) {
            (Some(m), Some(p)) => Some(
                mapped_priority_with(
                    m,
                    p,
                    match lowered_priority {
                        Some(l) => l,
                        None => p,
                    },
                ),
            ),
            _ => None,
        },
    );
    let d = with_field(c, m_assignee, t.assignee);
    let e = with_field(d, m_deps, Some(join_with(t.dependencies, ","@)));
    with_field(e, m_test, t.test_strategy)
}

/// The remote name of the assignee of a task: the entry `qa` of the agents'
/// table for a task that awaits QA, else the task's own assignee where the
/// name holds `5dlabs`, else what the table holds for the assignee.
pub open spec fn assignee_of(
    registry: Seq<(Seq<char>, FieldMappingView)>,
    agents: Option<Seq<(Seq<char>, Seq<char>)>>,
    t: TaskView,
) -> Option<Seq<char>> {
    match agents {
        None => None,
        Some(table) => {
            let status = match lookup(registry, "status"@) {
                Some(m) => mapped_status(m, t),
                None => t.status,
            };
            if status == "QA Review"@ {
                lookup(table, "qa"@)
            } else {
                match t.assignee {
                    Some(a) => if contains_seq(a, "5dlabs"@) {
                        Some(a)
                    } else {
                        lookup(table, a)
                    },
                    None => None,
                }
            }
        },
    }
}

/// The name by which the remote side knows a kind of field.
pub open spec fn kind_name(t: GitHubFieldType) -> Seq<char> {
    match t {
        GitHubFieldType::Text => "TEXT"@,
        GitHubFieldType::SingleSelect => "SINGLE_SELECT"@,
        GitHubFieldType::Number => "NUMBER"@,
        GitHubFieldType::Date => "DATE"@,
        GitHubFieldType::Iteration => "ITERATION"@,
    }
}

/// Some field of the list has the name `name`.
pub open spec fn has_field_named(fields: Seq<CustomFieldView>, name: Seq<char>) -> bool {
    exists|i: int| 0 <= i < fields.len() && (#[trigger] fields[i]).name == name
}

/// The required fields that the remote project lacks, each with the name of
/// its kind, in the order of the requirements.
pub open spec fn missing_fields(
    required: Seq<RequiredField>,
    existing: Seq<CustomFieldView>,
) -> Seq<(Seq<char>, Seq<char>)>
    decreases required.len(),
{
    if required.len() == 0 {
        Seq::empty()
    } else {
        let rest = missing_fields(required.drop_last(), existing);
        let last = required.last();
        if has_field_named(existing, last.name@) {
            rest
        } else {
            rest.push((last.name@, kind_name(last.field_type)))
        }
    }
}

/// The fields that a run is to create in the remote project: none in a dry
/// run, which sends nothing that changes the remote side, else the required
/// fields that the project lacks.
pub open spec fn creatable_fields(
    dry_run: bool,
    required: Seq<RequiredField>,
    existing: Seq<CustomFieldView>,
) -> Seq<(Seq<char>, Seq<char>)> {
    if dry_run {
        Seq::empty()
    } else {
        missing_fields(required, existing)
    }
}

/// What is to be done for a choice of a single-select field.
#[derive(Debug)]
pub enum OptionStep {
    /// The choice exists; this is its id.
    Found(String),
    /// The choice is to be created in the field with this id, under this name
    /// and in this colour; after that the fields are to be read again.
    Create { field_id: String, option_name: String, color: String },
    /// The project has no such field.
    MissingField(TaskMasterError),
}

/// A step for a choice, as plain values.
pub enum OptionStepView {
    Found(Seq<char>),
    Create { field_id: Seq<char>, option_name: Seq<char>, color: Seq<char> },
    MissingField(ErrorView),
}

impl View for OptionStep {
    type V = OptionStepView;

    open spec fn view(&self) -> OptionStepView {
        match self {
            OptionStep::Found(id) => OptionStepView::Found(id@),
            OptionStep::Create { field_id, option_name, color } => OptionStepView::Create {
                field_id: field_id@,
                option_name: option_name@,
                color: color@,
            },
            OptionStep::MissingField(e) => OptionStepView::MissingField(e@),
        }
    }
}

/// What is to be done so that the field `field_name` has the choice
/// `option_name`: nothing where it has one of that name, a creation in grey
/// where the field is known, and an error where it is not.
pub open spec fn option_step(
    fields: Seq<(Seq<char>, CustomFieldView)>,
    field_name: Seq<char>,
    option_name: Seq<char>,
) -> OptionStepView {
    match option_id_of(fields, field_name, option_name) {
        Some(id) => OptionStepView::Found(id),
        None => match lookup(fields, field_name) {
            Some(f) => OptionStepView::Create {
                field_id: f.id,
                option_name: option_name,
                color: "GRAY"@,
            },
            None => OptionStepView::MissingField(
                ErrorView::ConfigError("Field '"@ + field_name + "' not found"@),
            ),
        },
    }
}

/// The registry of field mappings, with what is known of the remote fields.
pub struct FieldManager {
    field_mappings: StrMap<FieldMapping>,
    github_fields: StrMap<CustomField>,
    required_fields: Vec<RequiredField>,
}

impl FieldManager {
    /// The registry: the mappings by the name of the task's field.
    pub closed spec fn mappings(&self) -> Seq<(Seq<char>, FieldMappingView)> {
        self.field_mappings.pairs()
    }

    /// The known remote fields by name.
    pub closed spec fn fields(&self) -> Seq<(Seq<char>, CustomFieldView)> {
        self.github_fields.pairs()
    }

    /// The fields that the remote project must have.
    pub closed spec fn required(&self) -> Seq<RequiredField> {
        self.required_fields@
    }

    /// A manager with the default registry, which knows no remote field yet.
    pub fn new() -> (m: FieldManager)
        ensures
            m.mappings() == default_mappings(),
            m.fields().len() == 0,
            m.required().len() == 5,
            m.required()[0].name@ == "TM_ID"@ && m.required()[0].field_type
                == GitHubFieldType::Text,
            m.required()[1].name@ == "Dependencies"@ && m.required()[1].field_type
                == GitHubFieldType::Text,
            m.required()[2].name@ == "Test Strategy"@ && m.required()[2].field_type
                == GitHubFieldType::Text,
            m.required()[3].name@ == "Priority"@ && m.required()[3].field_type
                == GitHubFieldType::SingleSelect,
            m.required()[4].name@ == "Agent"@ && m.required()[4].field_type
                == GitHubFieldType::SingleSelect,
    {
        let mut required: Vec<RequiredField> = Vec::new();
        required.push(
            RequiredField {
                name: "TM_ID",
                field_type: GitHubFieldType::Text,
                description: "TaskMaster task ID",
            },
        );
        required.push(
            RequiredField {
                name: "Dependencies",
                field_type: GitHubFieldType::Text,
                description: "Comma-separated list of dependency task IDs",
            },
        );
        required.push(
            RequiredField {
                name: "Test Strategy",
                field_type: GitHubFieldType::Text,
                description: "Testing approach for the task",
            },
        );
        required.push(
            RequiredField {
                name: "Priority",
                field_type: GitHubFieldType::SingleSelect,
                description: "Task priority level",
            },
        );
        required.push(
            RequiredField {
                name: "Agent",
                field_type: GitHubFieldType::SingleSelect,
                description: "Assigned agent/service",
            },
        );
        let mut manager = FieldManager {
            field_mappings: StrMap::new(),
            github_fields: StrMap::new(),
            required_fields: required,
        };
        proof {
            lemma_pushes(manager.mappings());
        }
        manager.add_default_mappings();
        manager
    }

    /// Sets the six default mappings, each in place where the registry has
    /// a mapping for that field already, else at the end.
    fn add_default_mappings(&mut self)
        ensures
            final(self).mappings() == with_defaults(old(self).mappings()),
            final(self).fields() == old(self).fields(),
            final(self).required() == old(self).required(),
    {
        self.insert_mapping("id", "TM_ID", GitHubFieldType::Text, None);
        self.insert_mapping(
            "status",
            "Status",
            GitHubFieldType::SingleSelect,
            Some(FieldTransformer::StatusMapper),
        );
        self.insert_mapping(
            "priority",
            "Priority",
            GitHubFieldType::SingleSelect,
            Some(FieldTransformer::PriorityMapper),
        );
        self.insert_mapping("dependencies", "Dependencies", GitHubFieldType::Text, None);
        self.insert_mapping("testStrategy", "Test Strategy", GitHubFieldType::Text, None);
        self.insert_mapping("assignee", "Agent", GitHubFieldType::SingleSelect, None);
    }

    /// Sets one mapping of the registry.
    fn insert_mapping(
        &mut self,
        taskmaster_field: &str,
        github_field: &str,
        field_type: GitHubFieldType,
        transformer: Option<FieldTransformer>,
    )
        ensures
            final(self).mappings() == put(
                old(self).mappings(),
                taskmaster_field@,
                FieldMappingView {
                    taskmaster_field: taskmaster_field@,
                    github_field: github_field@,
                    field_type: field_type,
                    transformer: transformer.deep_view(),
                },
            ),
            final(self).fields() == old(self).fields(),
            final(self).required() == old(self).required(),
    {
        self.field_mappings.insert(
            owned(taskmaster_field),
            FieldMapping {
                taskmaster_field: owned(taskmaster_field),
                github_field: owned(github_field),
                field_type,
                transformer,
            },
        );
    }

    /// Adds the mappings of the settings to the registry, in their order. Each
    /// is a choice for `Status`, `Priority` and `Agent` and text for any other
    /// remote field, without transformer.
    pub fn init_mappings(&mut self, mappings: StrMap<String>) -> (r: Result<(), TaskMasterError>)
        ensures
            r is Ok,
            final(self).mappings() == with_configured(old(self).mappings(), mappings.pairs()),
            final(self).fields() == old(self).fields(),
            final(self).required() == old(self).required(),
    {
        let n = mappings.len();
        let ghost all = mappings.pairs();
        let ghost start = self.mappings();
        let mut i: usize = 0;
        assert(all.subrange(0, 0) =~= Seq::<(Seq<char>, Seq<char>)>::empty());
        while i < n
            invariant
                i <= n,
                n == all.len(),
                all == mappings.pairs(),
                self.mappings() == with_configured(start, all.subrange(0, i as int)),
                self.fields() == old(self).fields(),
                self.required() == old(self).required(),
            decreases n - i,
        {
            let tm_field = mappings.key_at(i);
            let gh_field = mappings.value_at(i);
            proof {
                assert(all.subrange(0, i + 1).drop_last() =~= all.subrange(0, i as int));
                assert(all.subrange(0, i + 1).last() == all[i as int]);
            }
            let field_type = if str_eq(gh_field.as_str(), "Status") || str_eq(
                gh_field.as_str(),
                "Priority",
            ) || str_eq(gh_field.as_str(), "Agent") {
                GitHubFieldType::SingleSelect
            } else {
                GitHubFieldType::Text
            };
            self.insert_mapping(tm_field.as_str(), gh_field.as_str(), field_type, None);
            i = i + 1;
        }
        assert(all.subrange(0, i as int) =~= all);
        Ok(())
    }

    /// The remote label of a status: that of a known word, and the status
    /// itself for anything else.
    pub fn transform_status(&self, status: &str) -> (r: Result<String, TaskMasterError>)
        ensures
            r is Ok,
            r->Ok_0@ == status_label(status@),
    {
        Ok(status_label_for(status))
    }

    /// The remote form of a priority: the priority in lower case.
    pub fn transform_priority(&self, priority: &str) -> (r: Result<String, TaskMasterError>)
        ensures
            r is Ok,
            r->Ok_0@ == lowercase_of(priority@),
    {
        Ok(to_lowercase(priority))
    }

    /// The remote fields of a task with their values.
    pub fn map_task_to_github(&self, task: &Task) -> (r: Result<StrMap<String>, TaskMasterError>)
        ensures
            r is Ok,
            r->Ok_0.pairs() == mapped_fields(self.mappings(), task@),
    {
        let lowered_priority = match &task.priority {
            Some(p) => Some(to_lowercase(p.as_str())),
            None => None,
        };
        let lowered: Option<&str> = match &lowered_priority {
            Some(l) => Some(l.as_str()),
            None => None,
        };
        Ok(self.map_task_with(task, lowered))
    }

    /// The remote fields of a task with their values, given the priority of
    /// the task in lower case where it has one: id, status, priority,
    /// assignee, dependencies and test strategy, each under the remote name
    /// that the registry gives it.
    pub fn map_task_with(&self, task: &Task, lowered_priority: Option<&str>) -> (r: StrMap<String>)
        ensures
            r.pairs() == mapped_fields_with(self.mappings(), task@, lowered_priority.deep_view()),
    {
        let mut out: StrMap<String> = StrMap::new();
        match self.field_mappings.get("id") {
            Some(m) => {
                out.insert(m.github_field.clone(), task.id.clone());
            },
            None => {},
        }
        match self.field_mappings.get("status") {
            Some(m) => {
                let value = if is_status_mapper(&m.transformer) {
                    status_label_for(task.status.as_str())
                } else {
                    task.status.clone()
                };
                out.insert(m.github_field.clone(), value);
            },
            None => {},
        }
        match self.field_mappings.get("priority") {
            Some(m) => {
                match &task.priority {
                    Some(p) => {
                        let value = if is_priority_mapper(&m.transformer) {
                            match lowered_priority {
                                Some(l) => owned(l),
                                None => p.clone(),
                            }
                        } else {
                            p.clone()
                        };
                        out.insert(m.github_field.clone(), value);
                    },
                    None => {},
                }
            },
            None => {},
        }
        match self.field_mappings.get("assignee") {
            Some(m) => {
                match &task.assignee {
                    Some(a) => {
                        out.insert(m.github_field.clone(), a.clone());
                    },
                    None => {},
                }
            },
            None => {},
        }
        match self.field_mappings.get("dependencies") {
            Some(m) => {
                out.insert(m.github_field.clone(), join(&task.dependencies, ","));
            },
            None => {},
        }
        match self.field_mappings.get("testStrategy") {
            Some(m) => {
                match &task.test_strategy {
                    Some(s) => {
                        out.insert(m.github_field.clone(), s.clone());
                    },
                    None => {},
                }
            },
            None => {},
        }
        out
    }

    /// The fields that are to be created in a project that has the fields
    /// `existing`: each with its name and the name of its kind.
    pub fn sync_fields_to_github(&self, existing: &[CustomField]) -> (r: Vec<(String, String)>)
        ensures
            r.deep_view() == missing_fields(self.required(), existing.deep_view()),
    {
        let mut r: Vec<(String, String)> = Vec::new();
        let ghost req = self.required();
        let mut i: usize = 0;
        assert(req.subrange(0, 0) =~= Seq::<RequiredField>::empty());
        assert(r.deep_view() =~= Seq::<(Seq<char>, Seq<char>)>::empty());
        while i < self.required_fields.len()
            invariant
                i <= self.required_fields.len(),
                req == self.required(),
                r.deep_view() == missing_fields(req.subrange(0, i as int), existing.deep_view()),
            decreases self.required_fields.len() - i,
        {
            let field = &self.required_fields[i];
            let ghost before = r.deep_view();
            proof {
                assert(req.subrange(0, i + 1).drop_last() =~= req.subrange(0, i as int));
                assert(req.subrange(0, i + 1).last() == req[i as int]);
            }
            if !has_field(existing, field.name) {
                let entry = (owned(field.name), owned(field_type_name(field.field_type)));
                r.push(entry);
                assert(r.deep_view() =~= before.push(
                    (field.name@, kind_name(field.field_type)),
                ));
            }
            i = i + 1;
        }
        assert(req.subrange(0, i as int) =~= req);
        r
    }

    /// The fields that a run with these choices is to create in a project
    /// that has the fields `existing`: none in a dry run, else the required
    /// fields that the project lacks, each with its name and the name of its
    /// kind.
    pub fn fields_to_create(&self, options: &SyncOptions, existing: &[CustomField]) -> (r: Vec<
        (String, String),
    >)
        ensures
            r.deep_view() == creatable_fields(
                options.dry_run,
                self.required(),
                existing.deep_view(),
            ),
    {
        if options.dry_run {
            let r: Vec<(String, String)> = Vec::new();
            assert(r.deep_view() =~= Seq::<(Seq<char>, Seq<char>)>::empty());
            r
        } else {
            self.sync_fields_to_github(existing)
        }
    }

    /// Whether the kind and the transformer of a mapping go together.
    pub fn validate_field_mapping(&self, mapping: &FieldMapping) -> (r: Result<
        (),
        TaskMasterError,
    >)
        ensures
            compatible(mapping@.field_type, mapping@.transformer) ==> r is Ok,
            !compatible(mapping@.field_type, mapping@.transformer) ==> r is Err && r->Err_0@
                == incompatible_mapping(mapping@.taskmaster_field),
    {
        let ok = match (&mapping.field_type, &mapping.transformer) {
            (GitHubFieldType::SingleSelect, Some(FieldTransformer::StatusMapper)) => true,
            (GitHubFieldType::SingleSelect, Some(FieldTransformer::PriorityMapper)) => true,
            (GitHubFieldType::SingleSelect, None) => true,
            (GitHubFieldType::Text, None) => true,
            (GitHubFieldType::Text, Some(FieldTransformer::DateFormatter)) => true,
            (GitHubFieldType::Number, None) => true,
            (GitHubFieldType::Date, None) => true,
            (GitHubFieldType::Iteration, None) => true,
            _ => false,
        };
        if ok {
            Ok(())
        } else {
            Err(
                TaskMasterError::InvalidTaskFormat(
                    concat2(
                        "Incompatible field type and transformer for field: ",
                        mapping.taskmaster_field.as_str(),
                    ),
                ),
            )
        }
    }

    /// The known remote fields, in the order in which their names came.
    pub fn github_fields(&self) -> (r: Vec<CustomField>)
        ensures
            r.deep_view().len() == self.fields().len(),
            forall|i: int| 0 <= i < r.deep_view().len() ==> r.deep_view()[i] == self.fields()[i].1,
    {
        let mut r: Vec<CustomField> = Vec::new();
        let n = self.github_fields.len();
        let mut i: usize = 0;
        while i < n
            invariant
                i <= n,
                n == self.fields().len(),
                r@.len() == i,
                forall|j: int| 0 <= j < i ==> r@[j]@ == self.fields()[j].1,
            decreases n - i,
        {
            r.push(self.github_fields.value_at(i).clone());
            i = i + 1;
        }
        r
    }

    /// Replaces what is known of the remote fields.
    pub fn set_github_fields(&mut self, fields: Vec<CustomField>)
        ensures
            final(self).fields() == fields_by_name(fields.deep_view()),
            final(self).mappings() == old(self).mappings(),
            final(self).required() == old(self).required(),
    {
        let mut map: StrMap<CustomField> = StrMap::new();
        let ghost all = fields.deep_view();
        let mut i: usize = 0;
        assert(all.subrange(0, 0) =~= Seq::<CustomFieldView>::empty());
        while i < fields.len()
            invariant
                i <= fields.len(),
                all == fields.deep_view(),
                map.pairs() == fields_by_name(all.subrange(0, i as int)),
            decreases fields.len() - i,
        {
            proof {
                assert(all.subrange(0, i + 1).drop_last() =~= all.subrange(0, i as int));
                assert(all.subrange(0, i + 1).last() == fields@[i as int]@);
            }
            map.insert(fields[i].name.clone(), fields[i].clone());
            i = i + 1;
        }
        assert(all.subrange(0, i as int) =~= all);
        self.github_fields = map;
    }

    /// The id of the choice named `option_name` of the field `field_name`,
    /// whatever the case of the letters.
    pub fn get_option_id(&self, field_name: &str, option_name: &str) -> (r: Option<String>)
        ensures
            r.deep_view() == option_id_of(self.fields(), field_name@, option_name@),
    {
        match self.github_fields.get(field_name) {
            Some(field) => {
                match &field.options {
                    Some(options) => {
                        let wanted = to_lowercase(option_name);
                        find_option(options, wanted.as_str())
                    },
                    None => None,
                }
            },
            None => None,
        }
    }

    /// What is to be done so that the field `field_name` has the choice
    /// `option_name`. After a creation the caller reads the fields again and
    /// hands them to `set_github_fields`; the new choice has the id that the
    /// creation gave.
    pub fn ensure_option_exists(&self, field_name: &str, option_name: &str) -> (r: OptionStep)
        ensures
            r@ == option_step(self.fields(), field_name@, option_name@),
    {
        match self.get_option_id(field_name, option_name) {
            Some(id) => OptionStep::Found(id),
            None => {
                match self.github_fields.get(field_name) {
                    Some(field) => OptionStep::Create {
                        field_id: field.id.clone(),
                        option_name: owned(option_name),
                        color: owned("GRAY"),
                    },
                    None => {
                        let mut text = owned("Field '");
                        text.append(field_name);
                        text.append("' not found");
                        OptionStep::MissingField(TaskMasterError::ConfigError(text))
                    },
                }
            },
        }
    }

    /// Takes over the remote fields as they are after a choice was created,
    /// and hands back the id that the creation gave to the new choice.
    pub fn option_created(&mut self, fields: Vec<CustomField>, option_id: String) -> (r: String)
        ensures
            r@ == option_id@,
            final(self).fields() == fields_by_name(fields.deep_view()),
            final(self).mappings() == old(self).mappings(),
            final(self).required() == old(self).required(),
    {
        self.set_github_fields(fields);
        option_id
    }

    /// Adds a mapping to the registry, if its kind and transformer go together.
    pub fn add_custom_mapping(&mut self, mapping: FieldMapping) -> (r: Result<
        (),
        TaskMasterError,
    >)
        ensures
            final(self).fields() == old(self).fields(),
            final(self).required() == old(self).required(),
            compatible(mapping@.field_type, mapping@.transformer) ==> r is Ok,
            compatible(mapping@.field_type, mapping@.transformer) ==> final(self).mappings()
                == put(old(self).mappings(), mapping@.taskmaster_field, mapping@),
            !compatible(mapping@.field_type, mapping@.transformer) ==> r is Err,
            !compatible(mapping@.field_type, mapping@.transformer) ==> r->Err_0@
                == incompatible_mapping(mapping@.taskmaster_field),
            !compatible(mapping@.field_type, mapping@.transformer) ==> final(self).mappings()
                == old(self).mappings(),
    {
        match self.validate_field_mapping(&mapping) {
            Ok(()) => {},
            Err(e) => {
                return Err(e);
            },
        }
        self.field_mappings.insert(mapping.taskmaster_field.clone(), mapping);
        Ok(())
    }

    /// The mapping of a field of the task, if the registry has one.
    pub fn get_mapping(&self, taskmaster_field: &str) -> (r: Option<&FieldMapping>)
        ensures
            r.deep_view() == lookup(self.mappings(), taskmaster_field@),
    {
        self.field_mappings.get(taskmaster_field)
    }

    /// The id of the remote field named `field_name`, if it is known.
    pub fn get_github_field_id(&self, field_name: &str) -> (r: Option<String>)
        ensures
            r.deep_view() == match lookup(self.fields(), field_name@) {
                Some(f) => Some(f.id),
                None => None,
            },
    {
        match self.github_fields.get(field_name) {
            Some(f) => Some(f.id.clone()),
            None => None,
        }
    }

    /// The remote name of the assignee of a task. `agents` is the agents'
    /// table, from agent to remote name, if one could be read; without it
    /// nobody is assigned.
    pub fn get_github_assignee(&self, task: &Task, agents: Option<&StrMap<String>>) -> (r: Option<
        String,
    >)
        ensures
            r.deep_view() == assignee_of(
                self.mappings(),
                match agents {
                    Some(a) => Some(a.pairs()),
                    None => None,
                },
                task@,
            ),
    {
        let table = match agents {
            Some(t) => t,
            None => {
                return None;
            },
        };
        let status = match self.field_mappings.get("status") {
            Some(m) => {
                if is_status_mapper(&m.transformer) {
                    status_label_for(task.status.as_str())
                } else {
                    task.status.clone()
                }
            },
            None => task.status.clone(),
        };
        if str_eq(status.as_str(), "QA Review") {
            return match table.get("qa") {
                Some(u) => Some(u.clone()),
                None => None,
            };
        }
        match &task.assignee {
            Some(a) => {
                if contains_str(a.as_str(), "5dlabs") {
                    Some(a.clone())
                } else {
                    match table.get(a.as_str()) {
                        Some(u) => Some(u.clone()),
                        None => None,
                    }
                }
            },
            None => None,
        }
    }
}

impl Default for FieldManager {
    fn default() -> (m: FieldManager)
        ensures
            m.mappings() == default_mappings(),
            m.fields().len() == 0,
    {
        FieldManager::new()
    }
}

/// The remote label of a status.
pub fn status_label_for(status: &str) -> (r: String)
    ensures
        r@ == status_label(status@),
{
    if str_eq(status, "pending") {
        owned("Todo")
    } else if str_eq(status, "in-progress") {
        owned("In Progress")
    } else if str_eq(status, "review") || str_eq(status, "qa") || str_eq(status, "qa-review") {
        owned("QA Review")
    } else if str_eq(status, "done") || str_eq(status, "completed") {
        owned("QA Review")
    } else if str_eq(status, "blocked") {
        owned("Blocked")
    } else {
        owned(status)
    }
}

/// The name by which the remote side knows a kind of field.
pub fn field_type_name(t: GitHubFieldType) -> (r: &'static str)
    ensures
        r@ == kind_name(t),
{
    match t {
        GitHubFieldType::Text => "TEXT",
        GitHubFieldType::SingleSelect => "SINGLE_SELECT",
        GitHubFieldType::Number => "NUMBER",
        GitHubFieldType::Date => "DATE",
        GitHubFieldType::Iteration => "ITERATION",
    }
}

/// Whether the transformer is the one for statuses.
fn is_status_mapper(t: &Option<FieldTransformer>) -> (r: bool)
    ensures
        r == (t.deep_view() == Some(FieldTransformerView::StatusMapper)),
{
    match t {
        Some(FieldTransformer::StatusMapper) => true,
        _ => false,
    }
}

/// Whether the transformer is the one for priorities.
fn is_priority_mapper(t: &Option<FieldTransformer>) -> (r: bool)
    ensures
        r == (t.deep_view() == Some(FieldTransformerView::PriorityMapper)),
{
    match t {
        Some(FieldTransformer::PriorityMapper) => true,
        _ => false,
    }
}

/// Whether some field of the list has the name `name`.
#[verifier::loop_isolation(false)]
fn has_field(fields: &[CustomField], name: &str) -> (r: bool)
    ensures
        r == has_field_named(fields.deep_view(), name@),
{
    let mut i: usize = 0;
    while i < fields.len()
        invariant
            i <= fields.len(),
            forall|j: int| 0 <= j < i ==> fields@[j]@.name != name@,
        decreases fields.len() - i,
    {
        if str_eq(fields[i].name.as_str(), name) {
            assert(fields.deep_view()[i as int].name == name@);
            return true;
        }
        i = i + 1;
    }
    assert forall|j: int| 0 <= j < fields.deep_view().len() implies (
    #[trigger] fields.deep_view()[j]).name != name@ by {
        assert(fields.deep_view()[j] == fields@[j]@);
    }
    false
}

/// The id of the first choice whose name is `wanted` in lower case.
fn find_option(options: &Vec<FieldOption>, wanted: &str) -> (r: Option<String>)
    ensures
        r.deep_view() == matching_option(options.deep_view(), wanted@),
{
    let mut names: Vec<String> = Vec::new();
    let mut i: usize = 0;
    while i < options.len()
        invariant
            i <= options.len(),
            names@.len() == i,
            forall|j: int| 0 <= j < i ==> names@[j]@ == lowercase_of(options@[j]@.name),
        decreases options.len() - i,
    {
        names.push(to_lowercase(options[i].name.as_str()));
        i = i + 1;
    }
    assert(names.deep_view() =~= lowered_names(options.deep_view()));
    option_with_name(options, &names, wanted)
}

/// The id of the first choice that has `wanted` at its place in `names`, the
/// names of the choices in lower case.
#[verifier::loop_isolation(false)]
pub fn option_with_name(options: &Vec<FieldOption>, names: &Vec<String>, wanted: &str) -> (r:
    Option<String>)
    ensures
        r.deep_view() == option_by_name(options.deep_view(), names.deep_view(), wanted@),
{
    if names.len() != options.len() {
        return None;
    }
    let ghost all = options.deep_view();
    let ghost all_names = names.deep_view();
    let mut i: usize = 0;
    assert(all.subrange(0, all.len() as int) =~= all);
    assert(all_names.subrange(0, all.len() as int) =~= all_names);
    while i < options.len()
        invariant
            i <= options.len(),
            option_by_name(all, all_names, wanted@) == option_by_name(
                all.subrange(i as int, all.len() as int),
                all_names.subrange(i as int, all.len() as int),
                wanted@,
            ),
        decreases options.len() - i,
    {
        let ghost cur = all.subrange(i as int, all.len() as int);
        let ghost cur_names = all_names.subrange(i as int, all.len() as int);
        assert(cur[0] == options@[i as int]@);
        assert(cur_names[0] == names@[i as int]@);
        assert(cur.drop_first() =~= all.subrange(i + 1, all.len() as int));
        assert(cur_names.drop_first() =~= all_names.subrange(i + 1, all.len() as int));
        if str_eq(names[i].as_str(), wanted) {
            return Some(options[i].id.clone());
        }
        i = i + 1;
    }
    None
}

/// The six names of the default registry differ from each other.
proof fn lemma_default_keys_differ()
    ensures
        "id"@ != "status"@,
        "id"@ != "priority"@,
        "id"@ != "dependencies"@,
        "id"@ != "testStrategy"@,
        "id"@ != "assignee"@,
        "status"@ != "priority"@,
        "status"@ != "dependencies"@,
        "status"@ != "testStrategy"@,
        "status"@ != "assignee"@,
        "priority"@ != "dependencies"@,
        "priority"@ != "testStrategy"@,
        "priority"@ != "assignee"@,
        "dependencies"@ != "testStrategy"@,
        "dependencies"@ != "assignee"@,
        "testStrategy"@ != "assignee"@,
{
    reveal_strlit("id");
    reveal_strlit("status");
    reveal_strlit("priority");
    reveal_strlit("dependencies");
    reveal_strlit("testStrategy");
    reveal_strlit("assignee");
    assert("id"@.len() == 2);
    assert("status"@.len() == 6);
    assert("priority"@.len() == 8);
    assert("dependencies"@.len() == 12);
    assert("testStrategy"@.len() == 12);
    assert("assignee"@.len() == 8);
    assert("priority"@[0] == 'p');
    assert("assignee"@[0] == 'a');
    assert("dependencies"@[0] == 'd');
    assert("testStrategy"@[0] == 't');
}

/// An empty registry with the six default mappings set is the default
/// registry: six different keys stand in it in their order.
proof fn lemma_pushes(start: Seq<(Seq<char>, FieldMappingView)>)
    requires
        start.len() == 0,
    ensures
        with_defaults(start) == default_mappings(),
{
    lemma_default_keys_differ();
    let d = default_mappings();
    let a = put(start, d[0].0, d[0].1);
    crate::strmap::lemma_key_index(start, d[0].0);
    assert(a =~= seq![d[0]]);
    crate::strmap::lemma_key_index(a, d[1].0);
    let b = put(a, d[1].0, d[1].1);
    assert(b =~= seq![d[0], d[1]]);
    crate::strmap::lemma_key_index(b, d[2].0);
    let c = put(b, d[2].0, d[2].1);
    assert(c =~= seq![d[0], d[1], d[2]]);
    crate::strmap::lemma_key_index(c, d[3].0);
    let e = put(c, d[3].0, d[3].1);
    assert(e =~= seq![d[0], d[1], d[2], d[3]]);
    crate::strmap::lemma_key_index(e, d[4].0);
    let f = put(e, d[4].0, d[4].1);
    assert(f =~= seq![d[0], d[1], d[2], d[3], d[4]]);
    crate::strmap::lemma_key_index(f, d[5].0);
    let g = put(f, d[5].0, d[5].1);
    assert(g =~= seq![d[0], d[1], d[2], d[3], d[4], d[5]]);
    assert(g =~= d);
}

/// The remote names of the agents that the members name: for each member
/// that has a text under `githubUsername`, that text under the member's name.
pub open spec fn agent_names(members: Seq<(Seq<char>, JsonView)>) -> Seq<(Seq<char>, Seq<char>)>
    decreases members.len(),
{
    if members.len() == 0 {
        Seq::empty()
    } else {
        let rest = agent_names(members.drop_last());
        match at_key(members.last().1, "githubUsername"@) {
            JsonView::Text(name) => put(rest, members.last().0, name),
            _ => rest,
        }
    }
}

/// The agents' table of a document: the agents under `agentMapping` and
/// `agents` with their remote names, and nothing where the document holds no
/// such object.
pub open spec fn agent_mapping_in(doc: JsonView) -> Seq<(Seq<char>, Seq<char>)> {
    match at_key(at_key(doc, "agentMapping"@), "agents"@) {
        JsonView::Object(members) => agent_names(members),
        _ => Seq::empty(),
    }
}

/// The agents' table that a text holds: that of the document which the text
/// is read as, and an error where the text is no document.
pub open spec fn agent_mapping_of(content: Seq<char>) -> Result<
    Seq<(Seq<char>, Seq<char>)>,
    ErrorView,
> {
    match json_document_of(content) {
        Ok(doc) => Ok(agent_mapping_in(doc)),
        Err(_) => Err(ErrorView::ConfigError("Invalid agent mapping JSON"@)),
    }
}

impl FieldManager {
    /// The agents' table that the text of the agents' file holds.
    pub fn load_agent_mapping(content: &str) -> (r: Result<StrMap<String>, TaskMasterError>)
        ensures
            match agent_mapping_of(content@) {
                Ok(table) => r is Ok && r->Ok_0.pairs() == table,
                Err(e) => r is Err && r->Err_0@ == e,
            },
    {
        match JsonValue::parse(content) {
            Ok(doc) => Ok(FieldManager::agent_mapping_from(&doc)),
            Err(_) => Err(TaskMasterError::ConfigError(owned("Invalid agent mapping JSON"))),
        }
    }

    /// The agents' table of a document.
    pub fn agent_mapping_from(doc: &JsonValue) -> (r: StrMap<String>)
        ensures
            r.pairs() == agent_mapping_in(doc@),
    {
        let mut r: StrMap<String> = StrMap::new();
        let mapping = match doc.get("agentMapping") {
            Some(m) => m,
            None => {
                return r;
            },
        };
        let agents = match mapping.get("agents") {
            Some(a) => a,
            None => {
                return r;
            },
        };
        match agents {
            JsonValue::Object(members) => {
                let ghost all = agents@->Object_0;
                let mut i: usize = 0;
                assert(all.subrange(0, 0) =~= Seq::<(Seq<char>, JsonView)>::empty());
                while i < members.len()
                    invariant
                        i <= members.len(),
                        all.len() == members@.len(),
                        all == agents@->Object_0,
                        agents@ is Object,
                        *agents == JsonValue::Object(*members),
                        r.pairs() == agent_names(all.subrange(0, i as int)),
                    decreases members.len() - i,
                {
                    proof {
                        assert(all.subrange(0, i + 1).drop_last() =~= all.subrange(0, i as int));
                        assert(all.subrange(0, i + 1).last() == (
                            members@[i as int].0@,
                            members@[i as int].1@,
                        ));
                    }
                    match members[i].1.get("githubUsername") {
                        Some(name) => {
                            match name.as_str() {
                                Some(text) => {
                                    r.insert(members[i].0.clone(), owned(text));
                                },
                                None => {},
                            }
                        },
                        None => {},
                    }
                    i = i + 1;
                }
                assert(all.subrange(0, i as int) =~= all);
                r
            },
            _ => r,
        }
    }
}

/// The default registry has a mapping for each of its six fields, and the
/// assignee of a task goes to the remote field `Agent`.
pub proof fn lemma_default_registry()
    ensures
        lookup(default_mappings(), "id"@) == Some(default_mappings()[0].1),
        lookup(default_mappings(), "status"@) == Some(default_mappings()[1].1),
        lookup(default_mappings(), "priority"@) == Some(default_mappings()[2].1),
        lookup(default_mappings(), "dependencies"@) == Some(default_mappings()[3].1),
        lookup(default_mappings(), "testStrategy"@) == Some(default_mappings()[4].1),
        lookup(default_mappings(), "assignee"@) == Some(default_mappings()[5].1),
        lookup(default_mappings(), "assignee"@)->0.github_field == "Agent"@,
        crate::strmap::distinct_keys(default_mappings()),
{
    lemma_default_keys_differ();
    let d = default_mappings();
    crate::strmap::lemma_key_index(d, "id"@);
    crate::strmap::lemma_key_index(d, "status"@);
    crate::strmap::lemma_key_index(d, "priority"@);
    crate::strmap::lemma_key_index(d, "dependencies"@);
    crate::strmap::lemma_key_index(d, "testStrategy"@);
    crate::strmap::lemma_key_index(d, "assignee"@);
    assert(d[0].0 == "id"@);
    assert(d[1].0 == "status"@);
    assert(d[2].0 == "priority"@);
    assert(d[3].0 == "dependencies"@);
    assert(d[4].0 == "testStrategy"@);
    assert(d[5].0 == "assignee"@);
}

} // verus!
