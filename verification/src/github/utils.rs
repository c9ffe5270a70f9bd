//! Project addresses and the form of field values.

use crate::error::{ErrorView, TaskMasterError};
use crate::text::{owned, parse_i32, parse_i32_spec, split, split_on, str_eq};
use vstd::prelude::*;

verus! {

/// The error for an address that is not that of a project.
pub open spec fn bad_project_url() -> ErrorView {
    ErrorView::InvalidTaskFormat("Invalid GitHub project URL format"@)
}

/// The error for an address whose project number cannot be read.
pub open spec fn bad_project_number() -> ErrorView {
    ErrorView::InvalidTaskFormat("Invalid project number in URL"@)
}

/// Organisation and number of the project at an address of the form
/// `https://github.com/orgs/ORG/projects/NUMBER`.
pub open spec fn project_url_parts(url: Seq<char>) -> Result<(Seq<char>, int), ErrorView> {
    let parts = split_on(url, "/"@);
    if parts.len() < 6 || parts[3] != "orgs"@ || parts[5] != "projects"@ {
        Err(bad_project_url())
    } else if parts.len() < 7 {
        Err(bad_project_number())
    } else {
        match parse_i32_spec(parts[6]) {
            Some(n) => Ok((parts[4], n)),
            None => Err(bad_project_number()),
        }
    }
}

/// Organisation and number of the project at an address.
pub fn parse_project_url(url: &str) -> (r: Result<(String, i32), TaskMasterError>)
    ensures
        match project_url_parts(url@) {
            Ok(p) => r is Ok && r->Ok_0.0@ == p.0 && r->Ok_0.1 == p.1,
            Err(e) => r is Err && r->Err_0@ == e,
        },
{
    let parts = split(url, "/");
    proof {
        let pv = parts.deep_view();
        assert forall|i: int| 0 <= i < parts@.len() implies pv[i] == parts@[i]@ by {}
    }
    if parts.len() < 6 || !str_eq(parts[3].as_str(), "orgs") || !str_eq(
        parts[5].as_str(),
        "projects",
    ) {
        return Err(TaskMasterError::InvalidTaskFormat(owned("Invalid GitHub project URL format")));
    }
    if parts.len() < 7 {
        return Err(TaskMasterError::InvalidTaskFormat(owned("Invalid project number in URL")));
    }
    match parse_i32(parts[6].as_str()) {
        Some(n) => Ok((parts[4].clone(), n)),
        None => Err(TaskMasterError::InvalidTaskFormat(owned("Invalid project number in URL"))),
    }
}

/// The value of a field in the form in which it is sent.
#[derive(Debug, PartialEq)]
pub enum FieldPayload {
    /// A text.
    Text(String),
    /// A number, as the text that is to be read as one.
    Number(String),
    /// The id of a choice of a single-select field.
    SingleSelectOptionId(String),
}

/// A field value as it is sent, as plain values.
pub enum FieldPayloadView {
    Text(Seq<char>),
    Number(Seq<char>),
    SingleSelectOptionId(Seq<char>),
}

impl View for FieldPayload {
    type V = FieldPayloadView;

    open spec fn view(&self) -> FieldPayloadView {
        match self {
            FieldPayload::Text(s) => FieldPayloadView::Text(s@),
            FieldPayload::Number(s) => FieldPayloadView::Number(s@),
            FieldPayload::SingleSelectOptionId(s) => FieldPayloadView::SingleSelectOptionId(s@),
        }
    }
}

impl DeepView for FieldPayload {
    type V = FieldPayloadView;

    open spec fn deep_view(&self) -> FieldPayloadView {
        self@
    }
}

/// The form in which `value` is sent to a field of the kind `field_type`: a
/// number for `NUMBER`, the id of a choice for `SINGLE_SELECT`, text for
/// `TEXT` and for any other kind.
pub open spec fn payload_for(value: Seq<char>, field_type: Seq<char>) -> FieldPayloadView {
    if field_type == "TEXT"@ {
        FieldPayloadView::Text(value)
    } else if field_type == "NUMBER"@ {
        FieldPayloadView::Number(value)
    } else if field_type == "SINGLE_SELECT"@ {
        FieldPayloadView::SingleSelectOptionId(value)
    } else {
        FieldPayloadView::Text(value)
    }
}

/// The form in which `value` is sent to a field of the kind `field_type`.
pub fn format_field_value(value: &str, field_type: &str) -> (r: FieldPayload)
    ensures
        r@ == payload_for(value@, field_type@),
{
    if str_eq(field_type, "TEXT") {
        FieldPayload::Text(owned(value))
    } else if str_eq(field_type, "NUMBER") {
        FieldPayload::Number(owned(value))
    } else if str_eq(field_type, "SINGLE_SELECT") {
        FieldPayload::SingleSelectOptionId(owned(value))
    } else {
        FieldPayload::Text(owned(value))
    }
}

} // verus!
