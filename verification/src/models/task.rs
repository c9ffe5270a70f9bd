//! Local tasks and their mathematical model.

use crate::strmap::StrMap;
use crate::text::{
    clone_opt, clone_strings, concat2, decimal, decimal_string, owned, str_eq,
};
use vstd::prelude::*;

verus! {

broadcast use vstd::std_specs::vec::group_vec_axioms;

/// One task of the local list, with its subtasks.
#[derive(Debug, PartialEq)]
pub struct Task {
    pub id: String,
    pub title: String,
    pub description: String,
    pub status: String,
    pub priority: Option<String>,
    pub dependencies: Vec<String>,
    pub details: Option<String>,
    pub test_strategy: Option<String>,
    pub subtasks: Vec<Task>,
    pub assignee: Option<String>,
}

/// What a task holds, as plain values.
pub struct TaskView {
    pub id: Seq<char>,
    pub title: Seq<char>,
    pub description: Seq<char>,
    pub status: Seq<char>,
    pub priority: Option<Seq<char>>,
    pub dependencies: Seq<Seq<char>>,
    pub details: Option<Seq<char>>,
    pub test_strategy: Option<Seq<char>>,
    pub subtasks: Seq<TaskView>,
    pub assignee: Option<Seq<char>>,
}

/// The model of a task: the model of each field, subtasks included.
pub open spec fn task_view(t: Task) -> TaskView
    decreases t,
{
    TaskView {
        id: t.id@,
        title: t.title@,
        description: t.description@,
        status: t.status@,
        priority: t.priority.deep_view(),
        dependencies: t.dependencies.deep_view(),
        details: t.details.deep_view(),
        test_strategy: t.test_strategy.deep_view(),
        subtasks: Seq::new(
            t.subtasks@.len(),
            |i: int|
                if 0 <= i < t.subtasks@.len() {
                    task_view(t.subtasks@[i])
                } else {
                    arbitrary()
                },
        ),
        assignee: t.assignee.deep_view(),
    }
}

impl View for Task {
    type V = TaskView;

    open spec fn view(&self) -> TaskView {
        task_view(*self)
    }
}

impl DeepView for Task {
    type V = TaskView;

    open spec fn deep_view(&self) -> TaskView {
        task_view(*self)
    }
}

/// Some task of the list has the id `id`.
pub open spec fn has_id(tasks: Seq<TaskView>, id: Seq<char>) -> bool {
    exists|k: int| 0 <= k < tasks.len() && (#[trigger] tasks[k]).id == id
}

/// Whether some task of the list has the id `id`.
#[verifier::loop_isolation(false)]
pub fn has_task_with_id(tasks: &[Task], id: &str) -> (r: bool)
    ensures
        r == has_id(tasks.deep_view(), id@),
{
    let mut i: usize = 0;
    while i < tasks.len()
        invariant
            i <= tasks.len(),
            forall|k: int| 0 <= k < i ==> tasks@[k]@.id != id@,
        decreases tasks.len() - i,
    {
        if str_eq(tasks[i].id.as_str(), id) {
            assert(tasks.deep_view()[i as int].id == id@);
            return true;
        }
        i = i + 1;
    }
    assert forall|k: int| 0 <= k < tasks.deep_view().len() implies (
    #[trigger] tasks.deep_view()[k]).id != id@ by {
        assert(tasks.deep_view()[k] == tasks@[k]@);
    }
    false
}

/// The subtasks of a task's model are the models of its subtasks.
pub proof fn lemma_subtasks_view(t: Task)
    ensures
        t@.subtasks == t.subtasks.deep_view(),
        t@.subtasks.len() == t.subtasks@.len(),
{
    assert(t@.subtasks =~= t.subtasks.deep_view());
}

impl Clone for Task {
    fn clone(&self) -> (r: Task)
        ensures
            r@ == self@,
        decreases *self,
    {
        let mut subs: Vec<Task> = Vec::new();
        let mut i: usize = 0;
        while i < self.subtasks.len()
            invariant
                i <= self.subtasks.len(),
                subs@.len() == i,
                forall|j: int| 0 <= j < i ==> subs@[j]@ == self.subtasks@[j]@,
            decreases self.subtasks.len() - i,
        {
            let c = self.subtasks[i].clone();
            subs.push(c);
            i = i + 1;
        }
        let r = Task {
            id: self.id.clone(),
            title: self.title.clone(),
            description: self.description.clone(),
            status: self.status.clone(),
            priority: clone_opt(&self.priority),
            dependencies: clone_strings(&self.dependencies),
            details: clone_opt(&self.details),
            test_strategy: clone_opt(&self.test_strategy),
            subtasks: subs,
            assignee: clone_opt(&self.assignee),
        };
        assert(r@.subtasks =~= self@.subtasks);
        r
    }
}

/// A copy of a list of tasks.
pub fn clone_tasks(tasks: &Vec<Task>) -> (r: Vec<Task>)
    ensures
        r.deep_view() == tasks.deep_view(),
{
    let mut r: Vec<Task> = Vec::new();
    let mut i: usize = 0;
    while i < tasks.len()
        invariant
            i <= tasks.len(),
            r@.len() == i,
            forall|j: int| 0 <= j < i ==> r@[j]@ == tasks@[j]@,
        decreases tasks.len() - i,
    {
        r.push(tasks[i].clone());
        i = i + 1;
    }
    assert(r.deep_view() =~= tasks.deep_view());
    r
}

/// The model of the task that stands for a subtask given by its title alone.
pub open spec fn titled_subtask(index: nat, title: Seq<char>) -> TaskView {
    TaskView {
        id: "subtask-"@ + decimal(index),
        title: title,
        description: Seq::empty(),
        status: "pending"@,
        priority: None,
        dependencies: Seq::empty(),
        details: None,
        test_strategy: None,
        subtasks: Seq::empty(),
        assignee: None,
    }
}

impl Task {
    /// The task that stands for a subtask written as a bare title at position
    /// `index` of its parent's list: pending, with the id `subtask-<index>`.
    pub fn from_subtask_title(index: usize, title: String) -> (t: Task)
        ensures
            t@ == titled_subtask(index as nat, title@),
    {
        let number = decimal_string(index);
        let t = Task {
            id: concat2("subtask-", number.as_str()),
            title: title,
            description: String::new(),
            status: owned("pending"),
            priority: None,
            dependencies: Vec::new(),
            details: None,
            test_strategy: None,
            subtasks: Vec::new(),
            assignee: None,
        };
        assert(t@.subtasks =~= Seq::<TaskView>::empty());
        assert(t@.dependencies =~= Seq::<Seq<char>>::empty());
        t
    }
}

/// When a tag's task list was made and changed, and what it is for.
#[derive(Debug)]
pub struct TaskMetadata {
    pub created: Option<String>,
    pub updated: Option<String>,
    pub description: Option<String>,
}

/// The tasks of one tag.
#[derive(Debug)]
pub struct TaggedTasks {
    pub tasks: Vec<Task>,
    pub metadata: Option<TaskMetadata>,
}

/// The model of a tag's tasks: the models of the tasks, in order.
impl View for TaggedTasks {
    type V = Seq<TaskView>;

    open spec fn view(&self) -> Seq<TaskView> {
        self.tasks.deep_view()
    }
}

impl DeepView for TaggedTasks {
    type V = Seq<TaskView>;

    open spec fn deep_view(&self) -> Seq<TaskView> {
        self.tasks.deep_view()
    }
}

/// The two shapes of the task file.
#[derive(Debug)]
pub enum TaskmasterTasks {
    /// One flat list of tasks.
    Legacy { tasks: Vec<Task> },
    /// One list of tasks for each tag.
    Tagged(StrMap<TaggedTasks>),
}

/// The task file as it was read.
#[derive(Debug)]
pub struct TaskmasterFile {
    pub version: Option<String>,
    pub tasks: TaskmasterTasks,
}

} // verus!
