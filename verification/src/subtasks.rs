//! Subtasks and the hierarchy of tasks: which subtask becomes an item of its
//! own, who is whose parent, and whether the parents form a cycle.

use crate::error::{ErrorView, TaskMasterError};
use crate::models::task::{lemma_subtasks_view, Task, TaskView};
use crate::strmap::{
    distinct_keys, has_key, lemma_key_index, lookup, put, StrMap, StrSet,
};
use crate::text::{
    byte_len, byte_length, clone_strings, concat2, contains_char, count_char, count_of, decimal,
    decimal_string, owned, strings_contain,
};
use vstd::prelude::*;

verus! {

broadcast use {vstd::std_specs::vec::group_vec_axioms, vstd::seq::group_seq_axioms};

/// When a subtask becomes an item of its own.
#[derive(Clone, Copy, Debug)]
pub struct SubtaskConfig {
    pub create_separate_if_has_subtasks: bool,
    pub create_separate_if_has_assignee: bool,
    pub create_separate_if_complex: bool,
    /// The least length of a description, in bytes, from which a subtask can
    /// become an item of its own.
    pub complexity_threshold: usize,
}

/// A task in the hierarchy.
#[derive(Debug)]
pub struct TaskNode {
    pub task: Task,
    pub children: Vec<TaskNode>,
    pub github_item_id: Option<String>,
    pub parent_id: Option<String>,
    pub level: usize,
}

/// A node of the hierarchy, as plain values.
pub struct TaskNodeView {
    pub task: TaskView,
    pub children: Seq<TaskNodeView>,
    pub github_item_id: Option<Seq<char>>,
    pub parent_id: Option<Seq<char>>,
    pub level: nat,
}

/// The model of a node: the model of its task and of each of its children.
pub open spec fn node_view(n: TaskNode) -> TaskNodeView
    decreases n,
{
    TaskNodeView {
        task: n.task@,
        children: Seq::new(
            n.children@.len(),
            |i: int|
                if 0 <= i < n.children@.len() {
                    node_view(n.children@[i])
                } else {
                    arbitrary()
                },
        ),
        github_item_id: n.github_item_id.deep_view(),
        parent_id: n.parent_id.deep_view(),
        level: n.level as nat,
    }
}

impl View for TaskNode {
    type V = TaskNodeView;

    open spec fn view(&self) -> TaskNodeView {
        node_view(*self)
    }
}

impl DeepView for TaskNode {
    type V = TaskNodeView;

    open spec fn deep_view(&self) -> TaskNodeView {
        node_view(*self)
    }
}

/// The node that a task without parent makes: at level 0, without children.
pub open spec fn root_node(t: TaskView) -> TaskNodeView {
    TaskNodeView {
        task: t,
        children: Seq::empty(),
        github_item_id: None,
        parent_id: None,
        level: 0,
    }
}

/// The tasks of a hierarchy, each node before its children.
pub open spec fn flattened(nodes: Seq<TaskNodeView>) -> Seq<TaskView>
    decreases nodes,
{
    if nodes.len() == 0 {
        Seq::empty()
    } else {
        flattened(nodes.drop_last()) + seq![nodes.last().task] + flattened(nodes.last().children)
    }
}

/// Whether a subtask becomes an item of its own: never with a description
/// shorter than the threshold; else if it has subtasks, or an assignee, or is
/// complex (has details or a test strategy, or a description longer than the
/// threshold), each where the settings ask for it.
pub open spec fn separate_issue(t: TaskView, c: SubtaskConfig) -> bool {
    let length = byte_len(t.description);
    &&& length >= c.complexity_threshold
    &&& {
        ||| c.create_separate_if_has_subtasks && t.subtasks.len() > 0
        ||| c.create_separate_if_has_assignee && t.assignee is Some
        ||| c.create_separate_if_complex && (t.details is Some || t.test_strategy is Some
            || length > c.complexity_threshold)
    }
}

/// The children of `id` in the map of parents.
pub open spec fn children_of(map: Seq<(Seq<char>, Seq<Seq<char>>)>, id: Seq<char>) -> Seq<
    Seq<char>,
> {
    match lookup(map, id) {
        Some(c) => c,
        None => Seq::empty(),
    }
}

/// The first parent, in the order of the map, that has `id` among its children.
pub open spec fn parent_of(map: Seq<(Seq<char>, Seq<Seq<char>>)>, id: Seq<char>) -> Option<
    Seq<char>,
>
    decreases map.len(),
{
    if map.len() == 0 {
        None
    } else if map[0].1.contains(id) {
        Some(map[0].0)
    } else {
        parent_of(map.drop_first(), id)
    }
}

/// The map of parents after `child` was added to the children of `parent`.
pub open spec fn with_child(
    map: Seq<(Seq<char>, Seq<Seq<char>>)>,
    parent: Seq<char>,
    child: Seq<char>,
) -> Seq<(Seq<char>, Seq<Seq<char>>)> {
    put(map, parent, children_of(map, parent).push(child))
}

/// How many parents of the map are not on the path.
pub open spec fn off_path(map: Seq<(Seq<char>, Seq<Seq<char>>)>, path: Seq<Seq<char>>) -> nat
    decreases map.len(),
{
    if map.len() == 0 {
        0
    } else {
        off_path(map.drop_last(), path) + if path.contains(map.last().0) {
            0nat
        } else {
            1nat
        }
    }
}

/// A longer path leaves no more parents off it, and fewer where the new id is
/// a parent that was off the path.
pub proof fn lemma_off_path_step(
    map: Seq<(Seq<char>, Seq<Seq<char>>)>,
    path: Seq<Seq<char>>,
    id: Seq<char>,
)
    requires
        distinct_keys(map),
    ensures
        off_path(map, path.push(id)) <= off_path(map, path),
        has_key(map, id) && !path.contains(id) ==> off_path(map, path.push(id)) < off_path(
            map,
            path,
        ),
    decreases map.len(),
{
    if map.len() > 0 {
        let rest = map.drop_last();
        let last = map.last();
        crate::delta_laws::lemma_lookup_step(map, id);
        lemma_off_path_step(rest, path, id);
        let longer = path.push(id);
        if path.contains(last.0) {
            let i = choose|i: int| 0 <= i < path.len() && path[i] == last.0;
            assert(longer[i] == last.0);
        }
        if last.0 == id {
            assert(longer[path.len() as int] == id);
        }
        if longer.contains(last.0) && last.0 != id {
            let i = choose|i: int| 0 <= i < longer.len() && longer[i] == last.0;
            assert(path[i] == last.0);
        }
    }
}

/// Whether following the children of `id` leads back to an id of the path or
/// to an id that was passed on the way: `id` is on the path itself, or one of
/// its children closes a cycle with the path extended by `id`.
pub open spec fn closes_cycle(
    map: Seq<(Seq<char>, Seq<Seq<char>>)>,
    id: Seq<char>,
    path: Seq<Seq<char>>,
) -> bool
    decreases off_path(map, path),
    when distinct_keys(map)
    via closes_cycle_decreases
{
    path.contains(id) || exists|i: int|
        0 <= i < children_of(map, id).len() && closes_cycle(
            map,
            #[trigger] children_of(map, id)[i],
            path.push(id),
        )
}

#[via_fn]
proof fn closes_cycle_decreases(
    map: Seq<(Seq<char>, Seq<Seq<char>>)>,
    id: Seq<char>,
    path: Seq<Seq<char>>,
) {
    lemma_off_path_step(map, path, id);
    lemma_key_index(map, id);
}

/// The error for a cycle that is reached from the task `id`.
pub open spec fn cycle_error(id: Seq<char>) -> ErrorView {
    ErrorView::DependencyCycle("Circular reference detected in task hierarchy starting with "@ + id)
}

/// The first task of the list from which a cycle is reached, if there is one.
pub open spec fn first_cyclic(map: Seq<(Seq<char>, Seq<Seq<char>>)>, tasks: Seq<TaskView>) -> Option<
    Seq<char>,
>
    decreases tasks.len(),
{
    if tasks.len() == 0 {
        None
    } else if closes_cycle(map, tasks[0].id, Seq::empty()) {
        Some(tasks[0].id)
    } else {
        first_cyclic(map, tasks.drop_first())
    }
}

/// What a task is in the hierarchy, in words.
pub open spec fn hierarchy_label(map: Seq<(Seq<char>, Seq<Seq<char>>)>, t: TaskView) -> Seq<char> {
    if t.subtasks.len() > 0 {
        "Parent task ("@ + decimal(t.subtasks.len()) + " subtasks)"@
    } else if parent_of(map, t.id) is Some {
        "Subtask"@
    } else {
        "Root task"@
    }
}

/// The fields of an item with what the hierarchy says of the task: its label,
/// its parent where it has one, and the number of its subtasks where it has any.
pub open spec fn with_hierarchy_fields(
    fields: Seq<(Seq<char>, Seq<char>)>,
    map: Seq<(Seq<char>, Seq<Seq<char>>)>,
    t: TaskView,
) -> Seq<(Seq<char>, Seq<char>)> {
    let a = put(fields, "Hierarchy"@, hierarchy_label(map, t));
    let b = match parent_of(map, t.id) {
        Some(p) => put(a, "Parent Task"@, p),
        None => a,
    };
    if t.subtasks.len() > 0 {
        put(b, "Subtask Count"@, decimal(t.subtasks.len()))
    } else {
        b
    }
}

/// The item that is to be created for a subtask.
#[derive(Debug)]
pub struct SubtaskIssue {
    pub subtask_id: String,
    pub title: String,
    pub body: String,
    pub assignees: Option<Vec<String>>,
}

/// The item for a subtask, as plain values.
pub struct SubtaskIssueView {
    pub subtask_id: Seq<char>,
    pub title: Seq<char>,
    pub body: Seq<char>,
    pub assignees: Option<Seq<Seq<char>>>,
}

impl View for SubtaskIssue {
    type V = SubtaskIssueView;

    open spec fn view(&self) -> SubtaskIssueView {
        SubtaskIssueView {
            subtask_id: self.subtask_id@,
            title: self.title@,
            body: self.body@,
            assignees: self.assignees.deep_view(),
        }
    }
}

impl DeepView for SubtaskIssue {
    type V = SubtaskIssueView;

    open spec fn deep_view(&self) -> SubtaskIssueView {
        self@
    }
}

/// The text that follows `heading` where `section` is there.
pub open spec fn optional_section(heading: Seq<char>, section: Option<Seq<char>>) -> Seq<char> {
    match section {
        Some(s) => heading + s,
        None => Seq::empty(),
    }
}

/// The item for a subtask: its title with the parent's in brackets, and a body
/// of description, parent, details and test strategy.
pub open spec fn subtask_issue(parent: TaskView, subtask: TaskView) -> SubtaskIssueView {
    SubtaskIssueView {
        subtask_id: subtask.id,
        title: subtask.title + " ["@ + parent.title + "]"@,
        body: subtask.description + "\n\n**Parent Task:** "@ + parent.title + optional_section(
            "\n\n## Details\n"@,
            subtask.details,
        ) + optional_section("\n\n## Test Strategy\n"@, subtask.test_strategy),
        assignees: match subtask.assignee {
            Some(a) => Some(seq![a]),
            None => None,
        },
    }
}

/// The items for the subtasks that become items of their own, in order.
pub open spec fn subtask_issues(parent: TaskView, subtasks: Seq<TaskView>, c: SubtaskConfig) -> Seq<
    SubtaskIssueView,
>
    decreases subtasks.len(),
{
    if subtasks.len() == 0 {
        Seq::empty()
    } else {
        let rest = subtask_issues(parent, subtasks.drop_last(), c);
        if separate_issue(subtasks.last(), c) {
            rest.push(subtask_issue(parent, subtasks.last()))
        } else {
            rest
        }
    }
}

/// The keeper of the hierarchy: who is whose parent, and which remote item a
/// subtask became.
pub struct SubtaskHandler {
    parent_child_map: StrMap<Vec<String>>,
    github_item_map: StrMap<String>,
    enhanced_mode: bool,
}

impl SubtaskHandler {
    /// The children of each parent, in the order in which the parents came.
    pub closed spec fn children(&self) -> Seq<(Seq<char>, Seq<Seq<char>>)> {
        self.parent_child_map.pairs()
    }

    /// The remote item of each subtask that became one.
    pub closed spec fn items(&self) -> Seq<(Seq<char>, Seq<char>)> {
        self.github_item_map.pairs()
    }

    /// Whether subtasks can become items of their own.
    pub closed spec fn enhanced(&self) -> bool {
        self.enhanced_mode
    }

    /// A handler that lets subtasks become items of their own.
    pub fn new() -> (h: SubtaskHandler)
        ensures
            h.enhanced(),
            h.children().len() == 0,
            h.items().len() == 0,
            distinct_keys(h.children()),
    {
        SubtaskHandler {
            parent_child_map: StrMap::new(),
            github_item_map: StrMap::new(),
            enhanced_mode: true,
        }
    }

    /// A handler that keeps every subtask in the body of its parent.
    pub fn new_basic() -> (h: SubtaskHandler)
        ensures
            !h.enhanced(),
            h.children().len() == 0,
            h.items().len() == 0,
            distinct_keys(h.children()),
    {
        SubtaskHandler {
            parent_child_map: StrMap::new(),
            github_item_map: StrMap::new(),
            enhanced_mode: false,
        }
    }

    /// Whether subtasks can become items of their own.
    pub fn is_enhanced_mode(&self) -> (r: bool)
        ensures
            r == self.enhanced(),
    {
        self.enhanced_mode
    }

    /// The hierarchy of a flat list: each task a node at level 0.
    pub fn build_hierarchy(&self, tasks: Vec<Task>) -> (nodes: Vec<TaskNode>)
        ensures
            nodes.deep_view().len() == tasks.deep_view().len(),
            forall|i: int|
                0 <= i < tasks.deep_view().len() ==> nodes.deep_view()[i] == root_node(
                    tasks.deep_view()[i],
                ),
    {
        let mut nodes: Vec<TaskNode> = Vec::new();
        let mut i: usize = 0;
        while i < tasks.len()
            invariant
                i <= tasks.len(),
                nodes@.len() == i,
                forall|j: int| 0 <= j < i ==> nodes@[j]@ == root_node(tasks@[j]@),
            decreases tasks.len() - i,
        {
            let node = TaskNode {
                level: 0,
                parent_id: None,
                task: tasks[i].clone(),
                children: Vec::new(),
                github_item_id: None,
            };
            assert(node@.children =~= Seq::<TaskNodeView>::empty());
            nodes.push(node);
            i = i + 1;
        }
        nodes
    }

    /// The tasks of a hierarchy, each node before its children.
    pub fn flatten_hierarchy(&self, nodes: Vec<TaskNode>) -> (tasks: Vec<Task>)
        ensures
            tasks.deep_view() == flattened(nodes.deep_view()),
    {
        let mut tasks: Vec<Task> = Vec::new();
        assert(tasks.deep_view() =~= Seq::<TaskView>::empty());
        flatten_into(&nodes, &mut tasks);
        assert(Seq::<TaskView>::empty() + flattened(nodes.deep_view()) =~= flattened(
            nodes.deep_view(),
        ));
        tasks
    }

    /// The items that are to be created for the subtasks of a task: one for
    /// each subtask that becomes an item of its own, none where subtasks stay
    /// in the body of their parent.
    pub fn process_subtasks(&self, task: &Task, config: &SubtaskConfig) -> (r: Vec<SubtaskIssue>)
        ensures
            r.deep_view() == if self.enhanced() {
                subtask_issues(task@, task@.subtasks, *config)
            } else {
                Seq::empty()
            },
    {
        let mut r: Vec<SubtaskIssue> = Vec::new();
        assert(r.deep_view() =~= Seq::<SubtaskIssueView>::empty());
        if !self.enhanced_mode {
            return r;
        }
        proof {
            lemma_subtasks_view(*task);
        }
        let ghost subs = task@.subtasks;
        let mut i: usize = 0;
        assert(subs.subrange(0, 0) =~= Seq::<TaskView>::empty());
        while i < task.subtasks.len()
            invariant
                i <= task.subtasks.len(),
                subs == task@.subtasks,
                subs == task.subtasks.deep_view(),
                r.deep_view() == subtask_issues(task@, subs.subrange(0, i as int), *config),
            decreases task.subtasks.len() - i,
        {
            let subtask = &task.subtasks[i];
            let ghost before = r.deep_view();
            proof {
                assert(subs.subrange(0, i + 1).drop_last() =~= subs.subrange(0, i as int));
                assert(subs.subrange(0, i + 1).last() == subtask@);
            }
            if self.should_create_separate_issue(subtask, config) {
                let issue = self.create_subtask_issue(task, subtask);
                r.push(issue);
                assert(r.deep_view() =~= before.push(subtask_issue(task@, subtask@)));
            }
            i = i + 1;
        }
        assert(subs.subrange(0, i as int) =~= subs);
        r
    }

    /// Records that the subtask `subtask_id` of `parent_id` became the remote
    /// item `project_item_id`.
    pub fn record_subtask(&mut self, parent_id: &str, subtask_id: &str, project_item_id: &str)
        ensures
            final(self).items() == put(old(self).items(), subtask_id@, project_item_id@),
            final(self).children() == with_child(old(self).children(), parent_id@, subtask_id@),
            final(self).enhanced() == old(self).enhanced(),
            distinct_keys(old(self).children()),
            distinct_keys(final(self).children()),
    {
        self.github_item_map.insert(owned(subtask_id), owned(project_item_id));
        let mut children = match self.parent_child_map.get(parent_id) {
            Some(c) => clone_strings(c),
            None => Vec::new(),
        };
        let ghost before = children.deep_view();
        assert(before =~= children_of(self.children(), parent_id@));
        children.push(owned(subtask_id));
        assert(children.deep_view() =~= before.push(subtask_id@));
        self.parent_child_map.insert(owned(parent_id), children);
    }

    /// The item that is to be created for a subtask.
    pub fn create_subtask_issue(&self, parent: &Task, subtask: &Task) -> (r: SubtaskIssue)
        ensures
            r@ == subtask_issue(parent@, subtask@),
    {
        let mut title = subtask.title.clone();
        title.append(" [");
        title.append(parent.title.as_str());
        title.append("]");
        let mut body = subtask.description.clone();
        body.append("\n\n**Parent Task:** ");
        body.append(parent.title.as_str());
        let ghost head = body@;
        match &subtask.details {
            Some(details) => {
                body.append("\n\n## Details\n");
                body.append(details.as_str());
                assert(body@ =~= head + ("\n\n## Details\n"@ + details@));
            },
            None => {
                assert(body@ =~= head + Seq::<char>::empty());
            },
        }
        let ghost mid = body@;
        match &subtask.test_strategy {
            Some(strategy) => {
                body.append("\n\n## Test Strategy\n");
                body.append(strategy.as_str());
                assert(body@ =~= mid + ("\n\n## Test Strategy\n"@ + strategy@));
            },
            None => {
                assert(body@ =~= mid + Seq::<char>::empty());
            },
        }
        let assignees = match &subtask.assignee {
            Some(a) => {
                let mut list: Vec<String> = Vec::new();
                list.push(a.clone());
                assert(list.deep_view() =~= seq![a@]);
                Some(list)
            },
            None => None,
        };
        SubtaskIssue { subtask_id: subtask.id.clone(), title, body, assignees }
    }

    /// Whether a subtask becomes an item of its own.
    pub fn should_create_separate_issue(&self, subtask: &Task, config: &SubtaskConfig) -> (r: bool)
        ensures
            r == separate_issue(subtask@, *config),
    {
        proof {
            lemma_subtasks_view(*subtask);
        }
        should_be_separate(subtask, config)
    }

    /// The parent of the task `task_id`: the first parent, in the order in
    /// which the parents came, that has it among its children.
    pub fn get_parent_id(&self, task_id: &str) -> (r: Option<String>)
        ensures
            r.deep_view() == parent_of(self.children(), task_id@),
            distinct_keys(self.children()),
    {
        let n = self.parent_child_map.len();
        let ghost map = self.children();
        let mut i: usize = 0;
        assert(map.subrange(0, map.len() as int) =~= map);
        while i < n
            invariant
                i <= n,
                n == map.len(),
                map == self.children(),
                parent_of(map, task_id@) == parent_of(
                    map.subrange(i as int, map.len() as int),
                    task_id@,
                ),
            decreases n - i,
        {
            let ghost cur = map.subrange(i as int, map.len() as int);
            assert(cur[0] == map[i as int]);
            assert(cur.drop_first() =~= map.subrange(i + 1, map.len() as int));
            let children = self.parent_child_map.value_at(i);
            if strings_contain(children, task_id) {
                return Some(self.parent_child_map.key_at(i).clone());
            }
            i = i + 1;
        }
        None
    }

    /// The children of the task `parent_id`, in the order in which they came.
    pub fn get_child_ids(&self, parent_id: &str) -> (r: Vec<String>)
        ensures
            r.deep_view() == children_of(self.children(), parent_id@),
            distinct_keys(self.children()),
    {
        match self.parent_child_map.get(parent_id) {
            Some(c) => clone_strings(c),
            None => {
                let r: Vec<String> = Vec::new();
                assert(r.deep_view() =~= Seq::<Seq<char>>::empty());
                r
            },
        }
    }

    /// Whether the id is that of a subtask: whether it holds a dot.
    pub fn is_subtask(&self, task_id: &str) -> (r: bool)
        ensures
            r == task_id@.contains('.'),
    {
        contains_char(task_id, '.')
    }

    /// The level of a task in the hierarchy: the number of dots in its id.
    pub fn get_task_level(&self, task_id: &str) -> (r: usize)
        ensures
            r == count_of(task_id@, '.'),
    {
        count_char(task_id, '.')
    }

    /// What a task is in the hierarchy, in words.
    pub fn format_hierarchy_field(&self, task: &Task) -> (r: String)
        ensures
            r@ == hierarchy_label(self.children(), task@),
    {
        proof {
            lemma_subtasks_view(*task);
        }
        let child_count = task.subtasks.len();
        if child_count > 0 {
            let mut r = owned("Parent task (");
            let count = decimal_string(child_count);
            r.append(count.as_str());
            r.append(" subtasks)");
            r
        } else if self.get_parent_id(task.id.as_str()).is_some() {
            owned("Subtask")
        } else {
            owned("Root task")
        }
    }

    /// Adds to the fields of an item what the hierarchy says of the task.
    pub fn add_hierarchy_fields(&self, fields: &mut StrMap<String>, task: &Task)
        ensures
            final(fields).pairs() == with_hierarchy_fields(
                old(fields).pairs(),
                self.children(),
                task@,
            ),
    {
        proof {
            lemma_subtasks_view(*task);
        }
        let label = self.format_hierarchy_field(task);
        fields.insert(owned("Hierarchy"), label);
        match self.get_parent_id(task.id.as_str()) {
            Some(parent) => {
                fields.insert(owned("Parent Task"), parent);
            },
            None => {},
        }
        let child_count = task.subtasks.len();
        if child_count > 0 {
            fields.insert(owned("Subtask Count"), decimal_string(child_count));
        }
    }

    /// Checks that no cycle of parents is reached from a task of the list.
    /// Fails for the first task from which one is reached.
    #[verifier::loop_isolation(false)]
    pub fn validate_hierarchy(&self, tasks: &[Task]) -> (r: Result<(), TaskMasterError>)
        ensures
            match first_cyclic(self.children(), tasks.deep_view()) {
                Some(id) => r is Err && r->Err_0@ == cycle_error(id),
                None => r is Ok,
            },
            distinct_keys(self.children()),
    {
        let _ = self.parent_child_map.len();
        let ghost all = tasks.deep_view();
        let ghost map = self.children();
        let mut i: usize = 0;
        assert(all.subrange(0, all.len() as int) =~= all);
        while i < tasks.len()
            invariant
                i <= tasks.len(),
                first_cyclic(map, all) == first_cyclic(map, all.subrange(i as int, all.len() as int)),
            decreases tasks.len() - i,
        {
            let ghost cur = all.subrange(i as int, all.len() as int);
            assert(cur[0] == tasks@[i as int]@);
            assert(cur.drop_first() =~= all.subrange(i + 1, all.len() as int));
            let mut visited = StrSet::new();
            if self.has_circular_reference(tasks[i].id.as_str(), &mut visited) {
                return Err(
                    TaskMasterError::DependencyCycle(
                        concat2(
                            "Circular reference detected in task hierarchy starting with ",
                            tasks[i].id.as_str(),
                        ),
                    ),
                );
            }
            i = i + 1;
        }
        Ok(())
    }

    /// Whether following the children of `task_id` leads back to an id of
    /// `visited`, the path walked so far, or to an id passed on the way. Where
    /// it does not, `visited` is left as it was.
    #[verifier::loop_isolation(false)]
    pub fn has_circular_reference(&self, task_id: &str, visited: &mut StrSet) -> (r: bool)
        ensures
            r == closes_cycle(self.children(), task_id@, old(visited).members()),
            !r ==> final(visited).members() == old(visited).members(),
            distinct_keys(self.children()),
        decreases off_path(self.children(), old(visited).members()),
    {
        let ghost map = self.children();
        let ghost path = visited.members();
        let _ = self.parent_child_map.len();
        if visited.contains(task_id) {
            return true;
        }
        visited.insert(owned(task_id));
        let ghost longer = path.push(task_id@);
        proof {
            lemma_off_path_step(map, path, task_id@);
            lemma_key_index(map, task_id@);
        }
        match self.parent_child_map.get(task_id) {
            Some(child_ids) => {
                let mut i: usize = 0;
                while i < child_ids.len()
                    invariant
                        i <= child_ids.len(),
                        visited.members() == longer,
                        child_ids.deep_view() == children_of(map, task_id@),
                        forall|j: int|
                            0 <= j < i ==> !closes_cycle(
                                map,
                                #[trigger] children_of(map, task_id@)[j],
                                longer,
                            ),
                    decreases child_ids.len() - i,
                {
                    assert(child_ids.deep_view()[i as int] == child_ids@[i as int]@);
                    if self.has_circular_reference(child_ids[i].as_str(), visited) {
                        assert(closes_cycle(map, children_of(map, task_id@)[i as int], longer));
                        return true;
                    }
                    i = i + 1;
                }
            },
            None => {},
        }
        visited.remove(task_id);
        proof {
            assert(longer[path.len() as int] == task_id@);
            longer.index_of_first_ensures(task_id@);
            let w = longer.index_of(task_id@);
            if w < path.len() {
                assert(path[w] == task_id@);
            }
            assert(longer.remove(path.len() as int) =~= path);
        }
        false
    }

    /// The settings in use where none are given.
    pub fn default_config() -> (c: SubtaskConfig)
        ensures
            c.create_separate_if_has_subtasks,
            c.create_separate_if_has_assignee,
            c.create_separate_if_complex,
            c.complexity_threshold == 100,
    {
        SubtaskConfig {
            create_separate_if_has_subtasks: true,
            create_separate_if_has_assignee: true,
            create_separate_if_complex: true,
            complexity_threshold: 100,
        }
    }
}

/// Whether a subtask becomes an item of its own.
pub fn should_be_separate(subtask: &Task, config: &SubtaskConfig) -> (r: bool)
    ensures
        r == separate_issue(subtask@, *config),
{
    proof {
        lemma_subtasks_view(*subtask);
    }
    let length = byte_length(subtask.description.as_str());
    if length < config.complexity_threshold {
        return false;
    }
    if config.create_separate_if_has_subtasks && subtask.subtasks.len() > 0 {
        return true;
    }
    if config.create_separate_if_has_assignee && subtask.assignee.is_some() {
        return true;
    }
    if config.create_separate_if_complex {
        if subtask.details.is_some() || subtask.test_strategy.is_some() {
            return true;
        }
        if length > config.complexity_threshold {
            return true;
        }
    }
    false
}

/// Appends the tasks of a hierarchy, each node before its children.
fn flatten_into(nodes: &Vec<TaskNode>, out: &mut Vec<Task>)
    ensures
        final(out).deep_view() == old(out).deep_view() + flattened(nodes.deep_view()),
    decreases nodes,
{
    let ghost start = out.deep_view();
    let ghost all = nodes.deep_view();
    let mut i: usize = 0;
    assert(all.subrange(0, 0) =~= Seq::<TaskNodeView>::empty());
    assert(start + Seq::<TaskView>::empty() =~= start);
    while i < nodes.len()
        invariant
            i <= nodes.len(),
            all == nodes.deep_view(),
            out.deep_view() == start + flattened(all.subrange(0, i as int)),
        decreases nodes.len() - i,
    {
        let ghost before = out.deep_view();
        let ghost done = flattened(all.subrange(0, i as int));
        proof {
            assert(all.subrange(0, i + 1).drop_last() =~= all.subrange(0, i as int));
            assert(all.subrange(0, i + 1).last() == nodes@[i as int]@);
        }
        out.push(nodes[i].task.clone());
        assert(out.deep_view() =~= before.push(nodes@[i as int]@.task));
        let ghost mid = out.deep_view();
        flatten_into(&nodes[i].children, out);
        proof {
            assert(nodes@[i as int]@.children =~= nodes@[i as int].children.deep_view());
            assert(out.deep_view() =~= start + (done + seq![nodes@[i as int]@.task] + flattened(
                nodes@[i as int]@.children,
            )));
        }
        i = i + 1;
    }
    assert(all.subrange(0, i as int) =~= all);
}

/// The tasks that are no subtasks: those whose id holds no dot, in order.
pub open spec fn root_tasks(tasks: Seq<TaskView>) -> Seq<TaskView>
    decreases tasks.len(),
{
    if tasks.len() == 0 {
        Seq::empty()
    } else {
        let rest = root_tasks(tasks.drop_last());
        if tasks.last().id.contains('.') {
            rest
        } else {
            rest.push(tasks.last())
        }
    }
}

/// The tasks that are no subtasks: those whose id holds no dot, in order.
pub fn find_root_tasks(tasks: &[Task]) -> (r: Vec<&Task>)
    ensures
        r.deep_view() == root_tasks(tasks.deep_view()),
{
    let mut r: Vec<&Task> = Vec::new();
    let ghost all = tasks.deep_view();
    let mut i: usize = 0;
    assert(all.subrange(0, 0) =~= Seq::<TaskView>::empty());
    assert(r.deep_view() =~= Seq::<TaskView>::empty());
    while i < tasks.len()
        invariant
            i <= tasks.len(),
            all == tasks.deep_view(),
            r.deep_view() == root_tasks(all.subrange(0, i as int)),
        decreases tasks.len() - i,
    {
        let ghost before = r.deep_view();
        proof {
            assert(all.subrange(0, i + 1).drop_last() =~= all.subrange(0, i as int));
            assert(all.subrange(0, i + 1).last() == tasks@[i as int]@);
        }
        if !contains_char(tasks[i].id.as_str(), '.') {
            r.push(&tasks[i]);
            assert(r.deep_view() =~= before.push(tasks@[i as int]@));
        }
        i = i + 1;
    }
    assert(all.subrange(0, i as int) =~= all);
    r
}

/// Each step of `walk` goes from a parent to one of its children.
pub open spec fn is_walk(map: Seq<(Seq<char>, Seq<Seq<char>>)>, walk: Seq<Seq<char>>) -> bool {
    forall|i: int|
        0 <= i < walk.len() - 1 ==> children_of(map, #[trigger] walk[i]).contains(walk[i + 1])
}

/// Cycle rejection. A walk along the children that ends on an id of the path,
/// or on an id that it passed before, is found: its start closes a cycle. So a
/// map in which A has the child B and B the child A fails for A and for B.
pub proof fn lemma_cycle_is_found(
    map: Seq<(Seq<char>, Seq<Seq<char>>)>,
    walk: Seq<Seq<char>>,
    path: Seq<Seq<char>>,
)
    requires
        distinct_keys(map),
        walk.len() >= 1,
        is_walk(map, walk),
        path.contains(walk.last()) || exists|j: int|
            0 <= j < walk.len() - 1 && walk[j] == walk.last(),
    ensures
        closes_cycle(map, walk[0], path),
    decreases walk.len(),
{
    let id = walk[0];
    if !path.contains(id) {
        let rest = walk.drop_first();
        let longer = path.push(id);
        assert(walk.len() >= 2);
        assert(is_walk(map, rest)) by {
            assert forall|i: int| 0 <= i < rest.len() - 1 implies children_of(
                map,
                #[trigger] rest[i],
            ).contains(rest[i + 1]) by {
                assert(rest[i] == walk[i + 1]);
                assert(rest[i + 1] == walk[i + 2]);
                assert(children_of(map, walk[i + 1]).contains(walk[i + 2]));
            }
        }
        assert(rest.last() == walk.last());
        if path.contains(walk.last()) {
            let k = choose|k: int| 0 <= k < path.len() && path[k] == walk.last();
            assert(longer[k] == walk.last());
        } else {
            let j = choose|j: int| 0 <= j < walk.len() - 1 && walk[j] == walk.last();
            if j == 0 {
                assert(longer[path.len() as int] == walk.last());
            } else {
                assert(rest[j - 1] == rest.last());
            }
        }
        lemma_cycle_is_found(map, rest, longer);
        assert(children_of(map, walk[0]).contains(walk[1]));
        let i = choose|i: int|
            0 <= i < children_of(map, id).len() && children_of(map, id)[i] == walk[1];
        assert(closes_cycle(map, children_of(map, id)[i], longer));
    }
}

/// Every child stands lower than its parent.
pub open spec fn ranked(map: Seq<(Seq<char>, Seq<Seq<char>>)>, rank: spec_fn(Seq<char>) -> nat) -> bool {
    forall|p: Seq<char>, i: int|
        0 <= i < children_of(map, p).len() ==> rank(#[trigger] children_of(map, p)[i]) < rank(p)
}

/// A hierarchy without cycle passes. Where every child stands lower than its
/// parent, as in a chain A, B, C, D of any depth, no id closes a cycle with a
/// path of ids that stand higher than it, and none with the empty path.
pub proof fn lemma_ranked_hierarchy_passes(
    map: Seq<(Seq<char>, Seq<Seq<char>>)>,
    rank: spec_fn(Seq<char>) -> nat,
    id: Seq<char>,
    path: Seq<Seq<char>>,
)
    requires
        distinct_keys(map),
        ranked(map, rank),
        forall|j: int| 0 <= j < path.len() ==> rank(#[trigger] path[j]) > rank(id),
    ensures
        !closes_cycle(map, id, path),
    decreases rank(id),
{
    let longer = path.push(id);
    assert forall|i: int| 0 <= i < children_of(map, id).len() implies !closes_cycle(
        map,
        #[trigger] children_of(map, id)[i],
        longer,
    ) by {
        let c = children_of(map, id)[i];
        assert(rank(c) < rank(id));
        assert forall|j: int| 0 <= j < longer.len() implies rank(#[trigger] longer[j]) > rank(
            c,
        ) by {
            if j < path.len() {
                assert(longer[j] == path[j]);
            }
        }
        lemma_ranked_hierarchy_passes(map, rank, c, longer);
    }
    if path.contains(id) {
        let k = choose|k: int| 0 <= k < path.len() && path[k] == id;
        assert(rank(path[k]) > rank(id));
    }
}

/// The check passes exactly where no task of the list reaches a cycle.
pub proof fn lemma_first_cyclic(map: Seq<(Seq<char>, Seq<Seq<char>>)>, tasks: Seq<TaskView>)
    ensures
        first_cyclic(map, tasks) is None <==> forall|i: int|
            0 <= i < tasks.len() ==> !closes_cycle(map, (#[trigger] tasks[i]).id, Seq::empty()),
    decreases tasks.len(),
{
    if tasks.len() > 0 {
        let rest = tasks.drop_first();
        lemma_first_cyclic(map, rest);
        if closes_cycle(map, tasks[0].id, Seq::empty()) {
        } else {
            if first_cyclic(map, rest) is None {
                assert forall|i: int| 0 <= i < tasks.len() implies !closes_cycle(
                    map,
                    (#[trigger] tasks[i]).id,
                    Seq::empty(),
                ) by {
                    if i > 0 {
                        assert(rest[i - 1] == tasks[i]);
                    }
                }
            } else {
                let i = choose|i: int|
                    0 <= i < rest.len() && closes_cycle(map, (#[trigger] rest[i]).id, Seq::empty());
                assert(rest[i] == tasks[i + 1]);
            }
        }
    }
}

} // verus!
