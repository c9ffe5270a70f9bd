//! Documents as trees of values, as far as the library reads them.

use crate::error::{ErrorView, TaskMasterError};
use crate::text::str_eq;
use vstd::prelude::*;

verus! {

broadcast use {vstd::std_specs::vec::group_vec_axioms, vstd::seq::group_seq_axioms};

/// A value of a document. A number is held as its text; the members of an
/// object are held in the order in which the document gives them.
#[derive(Debug)]
pub enum JsonValue {
    Null,
    Bool(bool),
    Number(String),
    Text(String),
    Array(Vec<JsonValue>),
    Object(Vec<(String, JsonValue)>),
}

/// A value of a document, as plain values.
pub enum JsonView {
    Null,
    Bool(bool),
    Number(Seq<char>),
    Text(Seq<char>),
    Array(Seq<JsonView>),
    Object(Seq<(Seq<char>, JsonView)>),
}

/// The model of a value: the model of each of its parts.
pub open spec fn json_view(v: JsonValue) -> JsonView
    decreases v,
{
    match v {
        JsonValue::Null => JsonView::Null,
        JsonValue::Bool(b) => JsonView::Bool(b),
        JsonValue::Number(s) => JsonView::Number(s@),
        JsonValue::Text(s) => JsonView::Text(s@),
        JsonValue::Array(items) => JsonView::Array(
            Seq::new(
                items@.len(),
                |i: int|
                    if 0 <= i < items@.len() {
                        json_view(items@[i])
                    } else {
                        arbitrary()
                    },
            ),
        ),
        JsonValue::Object(members) => JsonView::Object(
            Seq::new(
                members@.len(),
                |i: int|
                    if 0 <= i < members@.len() {
                        (members@[i].0@, json_view(members@[i].1))
                    } else {
                        arbitrary()
                    },
            ),
        ),
    }
}

impl View for JsonValue {
    type V = JsonView;

    open spec fn view(&self) -> JsonView {
        json_view(*self)
    }
}

impl DeepView for JsonValue {
    type V = JsonView;

    open spec fn deep_view(&self) -> JsonView {
        json_view(*self)
    }
}

/// The value of the first member named `key`, if there is one.
pub open spec fn member_of(members: Seq<(Seq<char>, JsonView)>, key: Seq<char>) -> Option<JsonView>
    decreases members.len(),
{
    if members.len() == 0 {
        None
    } else if members[0].0 == key {
        Some(members[0].1)
    } else {
        member_of(members.drop_first(), key)
    }
}

/// What stands under `key` in a value: the member of that name of an object,
/// and null in any other case.
pub open spec fn at_key(v: JsonView, key: Seq<char>) -> JsonView {
    match v {
        JsonView::Object(members) => match member_of(members, key) {
            Some(m) => m,
            None => JsonView::Null,
        },
        _ => JsonView::Null,
    }
}

/// The document that `serde_json` reads from a text, or the words with which
/// it turns the text down.
pub uninterp spec fn json_document_of(text: Seq<char>) -> Result<JsonView, Seq<char>>;

/// `serde_json::Value`, the tree that `serde_json` reads a text as. The
/// library sees nothing inside it; `from_tree` hands it over part by part.
#[verifier::external_type_specification]
#[verifier::external_body]
pub struct ExJsonTree(serde_json::Value);

/// Hands a `serde_json::Value` over in the form of the library, part by part:
/// a number as `serde_json` writes it, the members of an object in the order
/// in which `serde_json` holds them.
#[verifier::external_body]
fn from_tree(tree: &serde_json::Value) -> JsonValue {
    match tree {
        serde_json::Value::Null => JsonValue::Null,
        serde_json::Value::Bool(b) => JsonValue::Bool(*b),
        serde_json::Value::Number(n) => JsonValue::Number(n.to_string()),
        serde_json::Value::String(s) => JsonValue::Text(s.clone()),
        serde_json::Value::Array(items) => JsonValue::Array(items.iter().map(from_tree).collect()),
        serde_json::Value::Object(members) => JsonValue::Object(
            members.iter().map(|(k, v)| (k.clone(), from_tree(v))).collect(),
        ),
    }
}

/// Reads a text with `serde_json::from_str` as a `serde_json::Value` and
/// hands the value over in the form of the library, or the error as the text
/// that `serde_json` shows it as. What comes out depends on the text alone;
/// the contract only gives it its name.
#[verifier::external_body]
fn read_document(text: &str) -> (r: Result<JsonValue, String>)
    ensures
        match json_document_of(text@) {
            Ok(v) => r is Ok && r->Ok_0@ == v,
            Err(e) => r is Err && r->Err_0@ == e,
        },
{
    match serde_json::from_str::<serde_json::Value>(text) {
        Ok(tree) => Ok(from_tree(&tree)),
        Err(e) => Err(e.to_string()),
    }
}

/// What reading a text as a document gives: the document, or the error that
/// says why the text is none.
pub open spec fn parsed(text: Seq<char>) -> Result<JsonView, ErrorView> {
    match json_document_of(text) {
        Ok(v) => Ok(v),
        Err(e) => Err(ErrorView::JsonError(e)),
    }
}

impl JsonValue {
    /// Reads a text as a document.
    pub fn parse(text: &str) -> (r: Result<JsonValue, TaskMasterError>)
        ensures
            match parsed(text@) {
                Ok(v) => r is Ok && r->Ok_0@ == v,
                Err(e) => r is Err && r->Err_0@ == e,
            },
    {
        match read_document(text) {
            Ok(v) => Ok(v),
            Err(e) => Err(TaskMasterError::JsonError(e)),
        }
    }

    /// The value of the first member named `key`, if this is an object that
    /// has one.
    #[verifier::loop_isolation(false)]
    pub fn get(&self, key: &str) -> (r: Option<&JsonValue>)
        ensures
            r.deep_view() == match self@ {
                JsonView::Object(members) => member_of(members, key@),
                _ => None,
            },
    {
        match self {
            JsonValue::Object(members) => {
                let ghost all = self@->Object_0;
                let mut i: usize = 0;
                assert(all.subrange(0, all.len() as int) =~= all);
                while i < members.len()
                    invariant
                        i <= members.len(),
                        all.len() == members@.len(),
                        member_of(all, key@) == member_of(
                            all.subrange(i as int, all.len() as int),
                            key@,
                        ),
                    decreases members.len() - i,
                {
                    let ghost cur = all.subrange(i as int, all.len() as int);
                    assert(cur[0] == (members@[i as int].0@, members@[i as int].1@));
                    assert(cur.drop_first() =~= all.subrange(i + 1, all.len() as int));
                    if str_eq(members[i].0.as_str(), key) {
                        return Some(&members[i].1);
                    }
                    i = i + 1;
                }
                None
            },
            _ => None,
        }
    }

    /// Whether this is an object.
    pub fn is_object(&self) -> (r: bool)
        ensures
            r == (self@ is Object),
    {
        match self {
            JsonValue::Object(_) => true,
            _ => false,
        }
    }

    /// Whether this is an array.
    pub fn is_array(&self) -> (r: bool)
        ensures
            r == (self@ is Array),
    {
        match self {
            JsonValue::Array(_) => true,
            _ => false,
        }
    }

    /// The text, if this is a text.
    pub fn as_str(&self) -> (r: Option<&str>)
        ensures
            r.deep_view() == match self@ {
                JsonView::Text(s) => Some(s),
                _ => None,
            },
    {
        match self {
            JsonValue::Text(s) => Some(s.as_str()),
            _ => None,
        }
    }
}

} // verus!
