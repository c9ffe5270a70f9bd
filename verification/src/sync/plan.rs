//! What is written to the fields of an item, and in what form: text, or the
//! id of a choice that may have to be created first.

use crate::error::{ErrorView, TaskMasterError};
use crate::fields::{option_step, OptionStep, OptionStepView};
use crate::github::utils::{FieldPayload, FieldPayloadView};
use crate::models::github::{CustomField, CustomFieldView, FieldOption, FieldOptionView};
use crate::models::task::{Task, TaskView};
use crate::strmap::lookup;
use crate::sync::SyncEngine;
use crate::text::{owned, str_eq};
use vstd::prelude::*;

verus! {

/// The pause between two writes of field values, in milliseconds.
pub const FIELD_UPDATE_DELAY_MS: u64 = 50;

/// Whether the field of this name holds one of a set of choices.
pub open spec fn is_choice_field(name: Seq<char>) -> bool {
    name == "Priority"@ || name == "Status"@ || name == "Agent"@
}

/// What is to be done to have the value of a field in the form in which it
/// is sent.
#[derive(Debug)]
pub enum ValueStep {
    /// Send this.
    Ready(FieldPayload),
    /// Create the choice of this name and colour in the field with this id,
    /// read the fields again, and send the id that the creation gave.
    CreateOption { field_id: String, option_name: String, color: String },
    /// Give up with this error.
    Fail(TaskMasterError),
}

/// A step for a value, as plain values.
pub enum ValueStepView {
    Ready(FieldPayloadView),
    CreateOption { field_id: Seq<char>, option_name: Seq<char>, color: Seq<char> },
    Fail(ErrorView),
}

impl View for ValueStep {
    type V = ValueStepView;

    open spec fn view(&self) -> ValueStepView {
        match self {
            ValueStep::Ready(p) => ValueStepView::Ready(p@),
            ValueStep::CreateOption { field_id, option_name, color } => ValueStepView::CreateOption {
                field_id: field_id@,
                option_name: option_name@,
                color: color@,
            },
            ValueStep::Fail(e) => ValueStepView::Fail(e@),
        }
    }
}

/// The form in which `value` is sent to the field `name`: empty text for an
/// empty value; for a field of choices the id of the choice of that name,
/// which is to be created where the field lacks it; text for any other field.
pub open spec fn value_step(
    fields: Seq<(Seq<char>, CustomFieldView)>,
    name: Seq<char>,
    value: Seq<char>,
) -> ValueStepView {
    if value.len() == 0 {
        ValueStepView::Ready(FieldPayloadView::Text(Seq::empty()))
    } else if is_choice_field(name) {
        match option_step(fields, name, value) {
            OptionStepView::Found(id) => ValueStepView::Ready(
                FieldPayloadView::SingleSelectOptionId(id),
            ),
            OptionStepView::Create { field_id, option_name, color } => ValueStepView::CreateOption {
                field_id: field_id,
                option_name: option_name,
                color: color,
            },
            OptionStepView::MissingField(e) => ValueStepView::Fail(e),
        }
    } else {
        ValueStepView::Ready(FieldPayloadView::Text(value))
    }
}

/// What is to be done to write a value to a field of an item.
#[derive(Debug)]
pub enum FieldWritePlan {
    /// Write this to the field with this id.
    Write { field_id: String, payload: FieldPayload },
    /// Create the choice first, as `ValueStep::CreateOption` says, then write
    /// its id to the field.
    CreateOption { field_id: String, option_name: String, color: String },
    /// The field is not known: read the fields again and plan once more.
    Refresh,
    /// The field is not known even after reading the fields again: leave it.
    Skip,
    /// Give up on the item with this error.
    Fail(TaskMasterError),
}

/// A plan for a write, as plain values.
pub enum FieldWritePlanView {
    Write { field_id: Seq<char>, payload: FieldPayloadView },
    CreateOption { field_id: Seq<char>, option_name: Seq<char>, color: Seq<char> },
    Refresh,
    Skip,
    Fail(ErrorView),
}

impl View for FieldWritePlan {
    type V = FieldWritePlanView;

    open spec fn view(&self) -> FieldWritePlanView {
        match self {
            FieldWritePlan::Write { field_id, payload } => FieldWritePlanView::Write {
                field_id: field_id@,
                payload: payload@,
            },
            FieldWritePlan::CreateOption { field_id, option_name, color } => FieldWritePlanView::CreateOption {
                field_id: field_id@,
                option_name: option_name@,
                color: color@,
            },
            FieldWritePlan::Refresh => FieldWritePlanView::Refresh,
            FieldWritePlan::Skip => FieldWritePlanView::Skip,
            FieldWritePlan::Fail(e) => FieldWritePlanView::Fail(e@),
        }
    }
}

/// What is to be done to write `value` to the field `name`. A field that is
/// not known is looked for once more after the fields were read again, and
/// left where it is still not known.
pub open spec fn write_plan(
    fields: Seq<(Seq<char>, CustomFieldView)>,
    name: Seq<char>,
    value: Seq<char>,
    refreshed: bool,
) -> FieldWritePlanView {
    match lookup(fields, name) {
        None => if refreshed {
            FieldWritePlanView::Skip
        } else {
            FieldWritePlanView::Refresh
        },
        Some(f) => match value_step(fields, name, value) {
            ValueStepView::Ready(p) => FieldWritePlanView::Write { field_id: f.id, payload: p },
            ValueStepView::CreateOption { field_id, option_name, color } => FieldWritePlanView::CreateOption {
                field_id: field_id,
                option_name: option_name,
                color: color,
            },
            ValueStepView::Fail(e) => FieldWritePlanView::Fail(e),
        },
    }
}

/// The write that makes up for an identity field that was not written: the
/// id of the task as text to the field `TM_ID`, where that field is known.
pub open spec fn identity_retry(
    fields: Seq<(Seq<char>, CustomFieldView)>,
    t: TaskView,
    identity_written: bool,
) -> Option<(Seq<char>, FieldPayloadView)> {
    if identity_written {
        None
    } else {
        match lookup(fields, "TM_ID"@) {
            Some(f) => Some((f.id, FieldPayloadView::Text(t.id))),
            None => None,
        }
    }
}

/// Whether the field lacks the choice for tasks that await QA: it is the
/// single-select field `Status`, has choices, and none is `QA Review`.
pub open spec fn lacks_qa_option(f: CustomFieldView) -> bool {
    f.name == "Status"@ && f.data_type == "SINGLE_SELECT"@ && match f.options {
        Some(options) => !has_option_named(options, "QA Review"@),
        None => false,
    }
}

/// Some choice of the list has the name `name`.
pub open spec fn has_option_named(options: Seq<FieldOptionView>, name: Seq<char>) -> bool {
    exists|i: int| 0 <= i < options.len() && (#[trigger] options[i]).name == name
}

/// The ids of the fields that are to get the choice for tasks that await QA.
pub open spec fn qa_option_targets(fields: Seq<CustomFieldView>) -> Seq<Seq<char>>
    decreases fields.len(),
{
    if fields.len() == 0 {
        Seq::empty()
    } else {
        let rest = qa_option_targets(fields.drop_last());
        if lacks_qa_option(fields.last()) {
            rest.push(fields.last().id)
        } else {
            rest
        }
    }
}

impl SyncEngine {
    /// The known remote fields by name.
    pub closed spec fn known_fields(&self) -> Seq<(Seq<char>, CustomFieldView)> {
        self.fields.fields()
    }

    /// The plain form in which a value is sent: as text, whatever the field.
    pub fn format_field_value(&self, field_name: &str, value: &str) -> (r: FieldPayload)
        ensures
            r@ == FieldPayloadView::Text(value@),
    {
        FieldPayload::Text(owned(value))
    }

    /// What is to be done to have the value of a field in the form in which
    /// it is sent.
    pub fn format_field_value_enhanced(&self, field_name: &str, value: &str) -> (r: ValueStep)
        ensures
            r@ == value_step(self.known_fields(), field_name@, value@),
    {
        if value.is_empty() {
            let text = String::new();
            return ValueStep::Ready(FieldPayload::Text(text));
        }
        if str_eq(field_name, "Priority") || str_eq(field_name, "Status") || str_eq(
            field_name,
            "Agent",
        ) {
            match self.fields.ensure_option_exists(field_name, value) {
                OptionStep::Found(id) => ValueStep::Ready(FieldPayload::SingleSelectOptionId(id)),
                OptionStep::Create { field_id, option_name, color } => ValueStep::CreateOption {
                    field_id,
                    option_name,
                    color,
                },
                OptionStep::MissingField(e) => ValueStep::Fail(e),
            }
        } else {
            ValueStep::Ready(FieldPayload::Text(owned(value)))
        }
    }

    /// What is to be done to write `value` to the field `field_name` of an
    /// item. `refreshed` says whether the fields were read again for this
    /// write already.
    pub fn plan_field_write(&self, field_name: &str, value: &str, refreshed: bool) -> (r:
        FieldWritePlan)
        ensures
            r@ == write_plan(self.known_fields(), field_name@, value@, refreshed),
    {
        match self.fields.get_github_field_id(field_name) {
            None => {
                if refreshed {
                    FieldWritePlan::Skip
                } else {
                    FieldWritePlan::Refresh
                }
            },
            Some(field_id) => {
                match self.format_field_value_enhanced(field_name, value) {
                    ValueStep::Ready(payload) => FieldWritePlan::Write { field_id, payload },
                    ValueStep::CreateOption { field_id, option_name, color } => FieldWritePlan::CreateOption {
                        field_id,
                        option_name,
                        color,
                    },
                    ValueStep::Fail(e) => FieldWritePlan::Fail(e),
                }
            },
        }
    }

    /// Whether the identity field counts as written after the write to the
    /// field `field_name` went through or failed.
    pub fn identity_written(written_before: bool, field_name: &str, succeeded: bool) -> (r: bool)
        ensures
            r == (written_before || (succeeded && field_name@ == "TM_ID"@)),
    {
        written_before || (succeeded && str_eq(field_name, "TM_ID"))
    }

    /// The write that makes up for an identity field that was not written.
    /// It is tried once; an item without identity field would be created
    /// again by the next run.
    pub fn emergency_identity_write(&self, task: &Task, identity_written: bool) -> (r: Option<
        (String, FieldPayload),
    >)
        ensures
            r.deep_view() == identity_retry(self.known_fields(), task@, identity_written),
    {
        if identity_written {
            return None;
        }
        match self.fields.get_github_field_id("TM_ID") {
            Some(field_id) => Some((field_id, FieldPayload::Text(task.id.clone()))),
            None => None,
        }
    }

    /// The ids of the fields of a new project that are to get the choice
    /// `QA Review`, in yellow.
    pub fn setup_project_fields(fields: &[CustomField]) -> (r: Vec<String>)
        ensures
            r.deep_view() == qa_option_targets(fields.deep_view()),
    {
        let mut r: Vec<String> = Vec::new();
        let ghost all = fields.deep_view();
        let mut i: usize = 0;
        assert(all.subrange(0, 0) =~= Seq::<CustomFieldView>::empty());
        assert(r.deep_view() =~= Seq::<Seq<char>>::empty());
        while i < fields.len()
            invariant
                i <= fields.len(),
                all == fields.deep_view(),
                r.deep_view() == qa_option_targets(all.subrange(0, i as int)),
            decreases fields.len() - i,
        {
            let field = &fields[i];
            let ghost before = r.deep_view();
            proof {
                assert(all.subrange(0, i + 1).drop_last() =~= all.subrange(0, i as int));
                assert(all.subrange(0, i + 1).last() == field@);
            }
            if str_eq(field.name.as_str(), "Status") && str_eq(
                field.data_type.as_str(),
                "SINGLE_SELECT",
            ) {
                match &field.options {
                    Some(options) => {
                        if !has_option(options, "QA Review") {
                            r.push(field.id.clone());
                            assert(r.deep_view() =~= before.push(field@.id));
                        }
                    },
                    None => {},
                }
            }
            i = i + 1;
        }
        assert(all.subrange(0, i as int) =~= all);
        r
    }
}

/// Whether some choice of the list has the name `name`.
#[verifier::loop_isolation(false)]
fn has_option(options: &Vec<FieldOption>, name: &str) -> (r: bool)
    ensures
        r == has_option_named(options.deep_view(), name@),
{
    let mut i: usize = 0;
    while i < options.len()
        invariant
            i <= options.len(),
            forall|j: int| 0 <= j < i ==> options@[j]@.name != name@,
        decreases options.len() - i,
    {
        if str_eq(options[i].name.as_str(), name) {
            assert(options.deep_view()[i as int].name == name@);
            return true;
        }
        i = i + 1;
    }
    assert forall|j: int| 0 <= j < options.deep_view().len() implies (
    #[trigger] options.deep_view()[j]).name != name@ by {
        assert(options.deep_view()[j] == options@[j]@);
    }
    false
}

} // verus!
