//! The shape of the task file.

use crate::error::{ErrorView, TaskMasterError};
use crate::json::{member_of, JsonValue, JsonView};
use crate::text::{concat3, owned};
use vstd::prelude::*;

verus! {

/// Whether the members hold a list of tasks: a member `tasks` that is an array.
pub open spec fn has_task_list(members: Seq<(Seq<char>, JsonView)>) -> bool {
    match member_of(members, "tasks"@) {
        Some(v) => v is Array,
        None => false,
    }
}

/// What is wrong with the member of one tag, if anything.
pub open spec fn tag_fault(tag: Seq<char>, v: JsonView) -> Option<ErrorView> {
    match v {
        JsonView::Object(members) => if has_task_list(members) {
            None
        } else {
            Some(
                ErrorView::InvalidTaskFormat(
                    "Tag '"@ + tag + "' must contain a 'tasks' array"@,
                ),
            )
        },
        _ => Some(ErrorView::InvalidTaskFormat("Tag '"@ + tag + "' must contain an object"@)),
    }
}

/// The fault of the first tag that has one.
pub open spec fn first_tag_fault(members: Seq<(Seq<char>, JsonView)>) -> Option<ErrorView>
    decreases members.len(),
{
    if members.len() == 0 {
        None
    } else {
        match tag_fault(members[0].0, members[0].1) {
            Some(e) => Some(e),
            None => first_tag_fault(members.drop_first()),
        }
    }
}

/// What is wrong with the shape of a task file, if anything. The file is an
/// object that either holds a list of tasks itself, or holds for each tag an
/// object with a list of tasks.
pub open spec fn structure_fault(v: JsonView) -> Option<ErrorView> {
    match v {
        JsonView::Object(members) => if has_task_list(members) {
            None
        } else {
            first_tag_fault(members)
        },
        _ => Some(ErrorView::InvalidTaskFormat("Root must be an object"@)),
    }
}

/// Whether the object holds a list of tasks.
fn holds_task_list(v: &JsonValue) -> (r: bool)
    requires
        v@ is Object,
    ensures
        r == has_task_list(v@->Object_0),
{
    match v.get("tasks") {
        Some(t) => t.is_array(),
        None => false,
    }
}

/// Checks the shape of a task file. Fails with the first fault.
#[verifier::loop_isolation(false)]
pub fn validate_json_structure(value: &JsonValue) -> (r: Result<(), TaskMasterError>)
    ensures
        match structure_fault(value@) {
            Some(e) => r is Err && r->Err_0@ == e,
            None => r is Ok,
        },
{
    match value {
        JsonValue::Object(members) => {
            if holds_task_list(value) {
                return Ok(());
            }
            let ghost all = value@->Object_0;
            let mut i: usize = 0;
            assert(all.subrange(0, all.len() as int) =~= all);
            while i < members.len()
                invariant
                    i <= members.len(),
                    all.len() == members@.len(),
                    first_tag_fault(all) == first_tag_fault(
                        all.subrange(i as int, all.len() as int),
                    ),
                decreases members.len() - i,
            {
                let ghost cur = all.subrange(i as int, all.len() as int);
                assert(cur[0] == (members@[i as int].0@, members@[i as int].1@));
                assert(cur.drop_first() =~= all.subrange(i + 1, all.len() as int));
                let tag = &members[i].0;
                let tag_value = &members[i].1;
                if !tag_value.is_object() {
                    return Err(
                        TaskMasterError::InvalidTaskFormat(
                            concat3("Tag '", tag.as_str(), "' must contain an object"),
                        ),
                    );
                }
                if !holds_task_list(tag_value) {
                    return Err(
                        TaskMasterError::InvalidTaskFormat(
                            concat3("Tag '", tag.as_str(), "' must contain a 'tasks' array"),
                        ),
                    );
                }
                i = i + 1;
            }
            Ok(())
        },
        _ => Err(TaskMasterError::InvalidTaskFormat(owned("Root must be an object"))),
    }
}

/// The two shapes of a task file.
#[derive(Clone, Copy, Debug, PartialEq, Eq, Structural)]
pub enum TaskFileShape {
    /// One flat list of tasks.
    Legacy,
    /// One list of tasks for each tag.
    Tagged,
}

/// The shape of a task file, by what it holds: flat where the file itself
/// holds a list of tasks, else tagged where every member is an object that
/// holds one, else faulty.
pub open spec fn shape_of(v: JsonView) -> Result<TaskFileShape, ErrorView> {
    match structure_fault(v) {
        Some(e) => Err(e),
        None => match v {
            JsonView::Object(members) => if has_task_list(members) {
                Ok(TaskFileShape::Legacy)
            } else {
                Ok(TaskFileShape::Tagged)
            },
            _ => Ok(TaskFileShape::Tagged),
        },
    }
}

/// The shape of a task file, by what it holds.
pub fn task_file_shape(value: &JsonValue) -> (r: Result<TaskFileShape, TaskMasterError>)
    ensures
        match shape_of(value@) {
            Ok(shape) => r == Ok::<TaskFileShape, TaskMasterError>(shape),
            Err(e) => r is Err && r->Err_0@ == e,
        },
{
    match validate_json_structure(value) {
        Ok(()) => {},
        Err(e) => {
            return Err(e);
        },
    }
    if value.is_object() && holds_task_list(value) {
        Ok(TaskFileShape::Legacy)
    } else {
        Ok(TaskFileShape::Tagged)
    }
}

} // verus!
