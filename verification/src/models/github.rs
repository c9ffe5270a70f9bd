//! Projects, items and fields of the remote board.

use crate::text::clone_opt;
use vstd::prelude::*;

verus! {

pub type GitHubProject = Project;

pub type GitHubProjectItem = ProjectItem;

pub type GitHubField = CustomField;

/// The kinds of value a remote field can hold.
#[derive(Clone, Copy, Debug, PartialEq, Eq, Structural)]
pub enum GitHubFieldType {
    Text,
    Number,
    Date,
    SingleSelect,
    Iteration,
}

/// A remote project.
#[derive(Debug)]
pub struct Project {
    pub id: String,
    pub number: i32,
    pub title: String,
    pub url: String,
    pub description: Option<String>,
}

/// What a project holds, as plain values.
pub struct ProjectView {
    pub id: Seq<char>,
    pub number: i32,
    pub title: Seq<char>,
    pub url: Seq<char>,
    pub description: Option<Seq<char>>,
}

impl View for Project {
    type V = ProjectView;

    open spec fn view(&self) -> ProjectView {
        ProjectView {
            id: self.id@,
            number: self.number,
            title: self.title@,
            url: self.url@,
            description: self.description.deep_view(),
        }
    }
}

impl DeepView for Project {
    type V = ProjectView;

    open spec fn deep_view(&self) -> ProjectView {
        self@
    }
}

impl Clone for Project {
    fn clone(&self) -> (r: Project)
        ensures
            r@ == self@,
    {
        Project {
            id: self.id.clone(),
            number: self.number,
            title: self.title.clone(),
            url: self.url.clone(),
            description: clone_opt(&self.description),
        }
    }
}

/// One of the choices of a single-select field.
#[derive(Debug)]
pub struct FieldOption {
    pub id: String,
    pub name: String,
    pub color: Option<String>,
}

/// What a choice holds, as plain values.
pub struct FieldOptionView {
    pub id: Seq<char>,
    pub name: Seq<char>,
    pub color: Option<Seq<char>>,
}

impl View for FieldOption {
    type V = FieldOptionView;

    open spec fn view(&self) -> FieldOptionView {
        FieldOptionView { id: self.id@, name: self.name@, color: self.color.deep_view() }
    }
}

impl DeepView for FieldOption {
    type V = FieldOptionView;

    open spec fn deep_view(&self) -> FieldOptionView {
        self@
    }
}

impl Clone for FieldOption {
    fn clone(&self) -> (r: FieldOption)
        ensures
            r@ == self@,
    {
        FieldOption {
            id: self.id.clone(),
            name: self.name.clone(),
            color: clone_opt(&self.color),
        }
    }
}

/// A field of the remote project.
#[derive(Debug)]
pub struct CustomField {
    pub id: String,
    pub name: String,
    pub data_type: String,
    pub options: Option<Vec<FieldOption>>,
}

/// What a field holds, as plain values.
pub struct CustomFieldView {
    pub id: Seq<char>,
    pub name: Seq<char>,
    pub data_type: Seq<char>,
    pub options: Option<Seq<FieldOptionView>>,
}

impl View for CustomField {
    type V = CustomFieldView;

    open spec fn view(&self) -> CustomFieldView {
        CustomFieldView {
            id: self.id@,
            name: self.name@,
            data_type: self.data_type@,
            options: self.options.deep_view(),
        }
    }
}

impl DeepView for CustomField {
    type V = CustomFieldView;

    open spec fn deep_view(&self) -> CustomFieldView {
        self@
    }
}

impl Clone for CustomField {
    fn clone(&self) -> (r: CustomField)
        ensures
            r@ == self@,
    {
        let options = match &self.options {
            Some(list) => {
                let mut copy: Vec<FieldOption> = Vec::new();
                let mut i: usize = 0;
                while i < list.len()
                    invariant
                        i <= list.len(),
                        copy@.len() == i,
                        forall|j: int| 0 <= j < i ==> copy@[j]@ == list@[j]@,
                    decreases list.len() - i,
                {
                    copy.push(list[i].clone());
                    i = i + 1;
                }
                assert(copy.deep_view() =~= list.deep_view());
                Some(copy)
            },
            None => None,
        };
        CustomField {
            id: self.id.clone(),
            name: self.name.clone(),
            data_type: self.data_type.clone(),
            options,
        }
    }
}

/// The value of a field on an item. A number is held as its decimal text.
#[derive(Debug)]
pub enum FieldValueContent {
    Text(String),
    Number(String),
    Date(String),
    SingleSelect(String),
    Iteration(String),
}

/// A field value, as plain values.
pub enum FieldValueContentView {
    Text(Seq<char>),
    Number(Seq<char>),
    Date(Seq<char>),
    SingleSelect(Seq<char>),
    Iteration(Seq<char>),
}

impl View for FieldValueContent {
    type V = FieldValueContentView;

    open spec fn view(&self) -> FieldValueContentView {
        match self {
            FieldValueContent::Text(s) => FieldValueContentView::Text(s@),
            FieldValueContent::Number(s) => FieldValueContentView::Number(s@),
            FieldValueContent::Date(s) => FieldValueContentView::Date(s@),
            FieldValueContent::SingleSelect(s) => FieldValueContentView::SingleSelect(s@),
            FieldValueContent::Iteration(s) => FieldValueContentView::Iteration(s@),
        }
    }
}

impl Clone for FieldValueContent {
    fn clone(&self) -> (r: FieldValueContent)
        ensures
            r@ == self@,
    {
        match self {
            FieldValueContent::Text(s) => FieldValueContent::Text(s.clone()),
            FieldValueContent::Number(s) => FieldValueContent::Number(s.clone()),
            FieldValueContent::Date(s) => FieldValueContent::Date(s.clone()),
            FieldValueContent::SingleSelect(s) => FieldValueContent::SingleSelect(s.clone()),
            FieldValueContent::Iteration(s) => FieldValueContent::Iteration(s.clone()),
        }
    }
}

/// A field of an item together with its value.
#[derive(Debug)]
pub struct FieldValue {
    pub field: CustomField,
    pub value: FieldValueContent,
}

/// A field with its value, as plain values.
pub struct FieldValueView {
    pub field: CustomFieldView,
    pub value: FieldValueContentView,
}

impl View for FieldValue {
    type V = FieldValueView;

    open spec fn view(&self) -> FieldValueView {
        FieldValueView { field: self.field@, value: self.value@ }
    }
}

impl DeepView for FieldValue {
    type V = FieldValueView;

    open spec fn deep_view(&self) -> FieldValueView {
        self@
    }
}

impl Clone for FieldValue {
    fn clone(&self) -> (r: FieldValue)
        ensures
            r@ == self@,
    {
        FieldValue { field: self.field.clone(), value: self.value.clone() }
    }
}

/// An item of the remote project.
#[derive(Debug)]
pub struct ProjectItem {
    pub id: String,
    pub title: String,
    pub body: Option<String>,
    pub field_values: Vec<FieldValue>,
}

/// What an item holds, as plain values.
pub struct ProjectItemView {
    pub id: Seq<char>,
    pub title: Seq<char>,
    pub body: Option<Seq<char>>,
    pub field_values: Seq<FieldValueView>,
}

impl View for ProjectItem {
    type V = ProjectItemView;

    open spec fn view(&self) -> ProjectItemView {
        ProjectItemView {
            id: self.id@,
            title: self.title@,
            body: self.body.deep_view(),
            field_values: self.field_values.deep_view(),
        }
    }
}

impl DeepView for ProjectItem {
    type V = ProjectItemView;

    open spec fn deep_view(&self) -> ProjectItemView {
        self@
    }
}

impl Clone for ProjectItem {
    fn clone(&self) -> (r: ProjectItem)
        ensures
            r@ == self@,
    {
        let mut values: Vec<FieldValue> = Vec::new();
        let mut i: usize = 0;
        while i < self.field_values.len()
            invariant
                i <= self.field_values.len(),
                values@.len() == i,
                forall|j: int| 0 <= j < i ==> values@[j]@ == self.field_values@[j]@,
            decreases self.field_values.len() - i,
        {
            values.push(self.field_values[i].clone());
            i = i + 1;
        }
        assert(values.deep_view() =~= self.field_values.deep_view());
        ProjectItem {
            id: self.id.clone(),
            title: self.title.clone(),
            body: clone_opt(&self.body),
            field_values: values,
        }
    }
}

/// One error of a query's answer.
#[derive(Debug)]
pub struct GraphQLError {
    pub message: String,
    pub path: Option<Vec<String>>,
}

/// The answer to a query: data, errors, or both.
#[derive(Debug)]
pub struct GraphQLResponse<T> {
    pub data: Option<T>,
    pub errors: Option<Vec<GraphQLError>>,
}

} // verus!
