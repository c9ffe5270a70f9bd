//! Change detection: fingerprints of tasks, snapshots of a tag, and the
//! difference between two snapshots.

use crate::clock::{now, Timestamp};
use crate::error::{ErrorView, TaskMasterError};
use crate::models::task::{Task, TaskView};
use crate::strmap::{
    has_key, lookup, put, with_member, StrMap,
    StrSet,
};
use crate::text::{
    clone_opt, clone_strings, concat3, decimal, decimal_string, opt_eq, str_eq, strings_eq,
};
use vstd::prelude::*;

verus! {

/// The hexadecimal MD5 digest of the UTF-8 bytes of `content`.
pub uninterp spec fn md5_hex_of(content: Seq<char>) -> Seq<char>;

/// `s` as `std` writes a string for debugging: in double quotes, with what
/// would not print escaped.
pub uninterp spec fn debug_text_of(s: Seq<char>) -> Seq<char>;

/// Calls `md5::compute` on the bytes of `content` and writes the digest with
/// `{:x}`, two lower-case hexadecimal digits for each of its 16 bytes. The
/// digest depends on the bytes alone; the contract only gives it its name.
#[verifier::external_body]
fn md5_hex(content: &str) -> (r: String)
    ensures
        r@ == md5_hex_of(content@),
{
    format!("{:x}", md5::compute(content))
}

/// Writes `s` with the `Debug` formatting of `str`. What comes out depends on
/// the characters of `s` alone; the contract only gives it its name.
#[verifier::external_body]
fn debug_text(s: &str) -> (r: String)
    ensures
        r@ == debug_text_of(s@),
{
    format!("{:?}", s)
}

/// An optional text as it is written for debugging, given the text as it is
/// written for debugging.
pub open spec fn opt_text(o: Option<Seq<char>>) -> Seq<char> {
    match o {
        Some(s) => "Some("@ + s + ")"@,
        None => "None"@,
    }
}

/// An optional string with its text as it is written for debugging.
pub open spec fn opt_debug(o: Option<Seq<char>>) -> Option<Seq<char>> {
    match o {
        Some(s) => Some(debug_text_of(s)),
        None => None,
    }
}

/// The text that a content hash is taken of, given description, details and
/// test strategy as they are written for debugging: these three and the
/// number of subtasks, with colons between them.
pub open spec fn content_text_of(
    description_text: Seq<char>,
    details_text: Option<Seq<char>>,
    strategy_text: Option<Seq<char>>,
    subtask_count: nat,
) -> Seq<char> {
    description_text + ":"@ + opt_text(details_text) + ":"@ + opt_text(strategy_text) + ":"@
        + decimal(subtask_count)
}

/// The text that a task's content hash is taken of: description, details,
/// test strategy and the number of subtasks, with colons between them.
pub open spec fn fingerprint_content(
    description: Seq<char>,
    details: Option<Seq<char>>,
    test_strategy: Option<Seq<char>>,
    subtask_count: nat,
) -> Seq<char> {
    content_text_of(
        debug_text_of(description),
        opt_debug(details),
        opt_debug(test_strategy),
        subtask_count,
    )
}

/// The content hash of a task.
pub open spec fn content_hash_of(t: TaskView) -> Seq<char> {
    md5_hex_of(fingerprint_content(t.description, t.details, t.test_strategy, t.subtasks.len()))
}

/// What is kept of a task to see later whether it changed.
#[derive(Debug, PartialEq)]
pub struct TaskFingerprint {
    pub id: String,
    pub title: String,
    pub status: String,
    pub priority: Option<String>,
    pub assignee: Option<String>,
    pub dependencies: Vec<String>,
    pub content_hash: String,
}

/// A fingerprint, as plain values.
pub struct TaskFingerprintView {
    pub id: Seq<char>,
    pub title: Seq<char>,
    pub status: Seq<char>,
    pub priority: Option<Seq<char>>,
    pub assignee: Option<Seq<char>>,
    pub dependencies: Seq<Seq<char>>,
    pub content_hash: Seq<char>,
}

impl View for TaskFingerprint {
    type V = TaskFingerprintView;

    open spec fn view(&self) -> TaskFingerprintView {
        TaskFingerprintView {
            id: self.id@,
            title: self.title@,
            status: self.status@,
            priority: self.priority.deep_view(),
            assignee: self.assignee.deep_view(),
            dependencies: self.dependencies.deep_view(),
            content_hash: self.content_hash@,
        }
    }
}

impl DeepView for TaskFingerprint {
    type V = TaskFingerprintView;

    open spec fn deep_view(&self) -> TaskFingerprintView {
        self@
    }
}

impl Clone for TaskFingerprint {
    fn clone(&self) -> (r: TaskFingerprint)
        ensures
            r@ == self@,
    {
        TaskFingerprint {
            id: self.id.clone(),
            title: self.title.clone(),
            status: self.status.clone(),
            priority: clone_opt(&self.priority),
            assignee: clone_opt(&self.assignee),
            dependencies: clone_strings(&self.dependencies),
            content_hash: self.content_hash.clone(),
        }
    }
}

impl TaskFingerprint {
    /// Whether two fingerprints agree in every field.
    pub fn same_as(&self, other: &TaskFingerprint) -> (r: bool)
        ensures
            r == (self@ == other@),
    {
        str_eq(self.id.as_str(), other.id.as_str()) && str_eq(
            self.title.as_str(),
            other.title.as_str(),
        ) && str_eq(self.status.as_str(), other.status.as_str()) && opt_eq(
            &self.priority,
            &other.priority,
        ) && opt_eq(&self.assignee, &other.assignee) && strings_eq(
            &self.dependencies,
            &other.dependencies,
        ) && str_eq(self.content_hash.as_str(), other.content_hash.as_str())
    }
}

/// The fingerprint of a task.
pub open spec fn fingerprint_of(t: TaskView) -> TaskFingerprintView {
    TaskFingerprintView {
        id: t.id,
        title: t.title,
        status: t.status,
        priority: t.priority,
        assignee: t.assignee,
        dependencies: t.dependencies,
        content_hash: content_hash_of(t),
    }
}

/// The fingerprints of a list of tasks by id. Of two tasks with one id the
/// later one counts, at the place of the first.
pub open spec fn snapshot_pairs(tasks: Seq<TaskView>) -> Seq<(Seq<char>, TaskFingerprintView)>
    decreases tasks.len(),
{
    if tasks.len() == 0 {
        Seq::empty()
    } else {
        put(snapshot_pairs(tasks.drop_last()), tasks.last().id, fingerprint_of(tasks.last()))
    }
}

/// The last task of the list with the id `id`, if there is one.
pub open spec fn task_with_id(tasks: Seq<TaskView>, id: Seq<char>) -> Option<TaskView>
    decreases tasks.len(),
{
    if tasks.len() == 0 {
        None
    } else if tasks.last().id == id {
        Some(tasks.last())
    } else {
        task_with_id(tasks.drop_last(), id)
    }
}

/// The fingerprints of the tasks of a tag at one time.
#[derive(Debug)]
pub struct TaskSnapshot {
    pub tasks: StrMap<TaskFingerprint>,
    pub timestamp: Timestamp,
}

/// One difference between two snapshots.
#[derive(Debug, PartialEq)]
pub enum TaskChange {
    Added(Box<Task>),
    /// The task before and after.
    Modified(Box<Task>, Box<Task>),
    Removed(Box<Task>),
}

/// A difference, as plain values.
pub enum TaskChangeView {
    Added(TaskView),
    Modified(TaskView, TaskView),
    Removed(TaskView),
}

impl View for TaskChange {
    type V = TaskChangeView;

    open spec fn view(&self) -> TaskChangeView {
        match self {
            TaskChange::Added(t) => TaskChangeView::Added((**t)@),
            TaskChange::Modified(o, n) => TaskChangeView::Modified((**o)@, (**n)@),
            TaskChange::Removed(t) => TaskChangeView::Removed((**t)@),
        }
    }
}

impl DeepView for TaskChange {
    type V = TaskChangeView;

    open spec fn deep_view(&self) -> TaskChangeView {
        self@
    }
}

impl TaskChangeView {
    /// The id of the task that the change is about.
    pub open spec fn task_id(self) -> Seq<char> {
        match self {
            TaskChangeView::Added(t) => t.id,
            TaskChangeView::Modified(_, n) => n.id,
            TaskChangeView::Removed(t) => t.id,
        }
    }
}

/// What change detection found: the differences, and the ids that they reach.
#[derive(Debug)]
pub struct ChangeSet {
    pub changes: Vec<TaskChange>,
    pub impacted_task_ids: StrSet,
}

/// The task that stands for one that is gone: what its fingerprint kept, with
/// an empty description and without details, test strategy or subtasks.
pub open spec fn removed_task(id: Seq<char>, fp: TaskFingerprintView) -> TaskView {
    TaskView {
        id: id,
        title: fp.title,
        description: Seq::empty(),
        status: fp.status,
        priority: fp.priority,
        dependencies: fp.dependencies,
        details: None,
        test_strategy: None,
        subtasks: Seq::empty(),
        assignee: fp.assignee,
    }
}

/// What became of one task of the previous snapshot.
pub open spec fn change_of_previous(
    id: Seq<char>,
    fp: TaskFingerprintView,
    current: Seq<(Seq<char>, TaskFingerprintView)>,
    tasks: Seq<TaskView>,
) -> Option<TaskChangeView> {
    match lookup(current, id) {
        Some(now) => if now != fp {
            match task_with_id(tasks, id) {
                Some(t) => Some(TaskChangeView::Modified(t, t)),
                None => None,
            }
        } else {
            None
        },
        None => Some(TaskChangeView::Removed(removed_task(id, fp))),
    }
}

/// The changes to the tasks of the previous snapshot, in its order.
pub open spec fn changes_of_previous(
    previous: Seq<(Seq<char>, TaskFingerprintView)>,
    current: Seq<(Seq<char>, TaskFingerprintView)>,
    tasks: Seq<TaskView>,
) -> Seq<TaskChangeView>
    decreases previous.len(),
{
    if previous.len() == 0 {
        Seq::empty()
    } else {
        let rest = changes_of_previous(previous.drop_last(), current, tasks);
        match change_of_previous(previous.last().0, previous.last().1, current, tasks) {
            Some(c) => rest.push(c),
            None => rest,
        }
    }
}

/// Whether one task of the current snapshot is new.
pub open spec fn change_of_current(
    id: Seq<char>,
    previous: Seq<(Seq<char>, TaskFingerprintView)>,
    tasks: Seq<TaskView>,
) -> Option<TaskChangeView> {
    if has_key(previous, id) {
        None
    } else {
        match task_with_id(tasks, id) {
            Some(t) => Some(TaskChangeView::Added(t)),
            None => None,
        }
    }
}

/// The new tasks of the current snapshot, in its order.
pub open spec fn changes_of_current(
    previous: Seq<(Seq<char>, TaskFingerprintView)>,
    current: Seq<(Seq<char>, TaskFingerprintView)>,
    tasks: Seq<TaskView>,
) -> Seq<TaskChangeView>
    decreases current.len(),
{
    if current.len() == 0 {
        Seq::empty()
    } else {
        let rest = changes_of_current(previous, current.drop_last(), tasks);
        match change_of_current(current.last().0, previous, tasks) {
            Some(c) => rest.push(c),
            None => rest,
        }
    }
}

/// The difference between two snapshots: first what changed or went, in the
/// order of the previous snapshot, then what is new, in the order of the
/// current one.
pub open spec fn snapshot_changes(
    previous: Seq<(Seq<char>, TaskFingerprintView)>,
    current: Seq<(Seq<char>, TaskFingerprintView)>,
    tasks: Seq<TaskView>,
) -> Seq<TaskChangeView> {
    changes_of_previous(previous, current, tasks) + changes_of_current(previous, current, tasks)
}

/// Every task as an addition, in order: the difference to no snapshot at all.
pub open spec fn all_added(tasks: Seq<TaskView>) -> Seq<TaskChangeView> {
    Seq::new(tasks.len(), |i: int| TaskChangeView::Added(tasks[i]))
}

/// The ids of the changed tasks, each once, in the order of the changes.
pub open spec fn changed_ids(changes: Seq<TaskChangeView>) -> Seq<Seq<char>>
    decreases changes.len(),
{
    if changes.len() == 0 {
        Seq::empty()
    } else {
        with_member(changed_ids(changes.drop_last()), changes.last().task_id())
    }
}

/// Some dependency of the task is among `changed`.
pub open spec fn depends_on_any(t: TaskView, changed: Seq<Seq<char>>) -> bool {
    exists|d: int| 0 <= d < t.dependencies.len() && changed.contains(#[trigger] t.dependencies[d])
}

/// `acc` with the ids of the tasks that depend on one of `changed`.
pub open spec fn with_dependents(
    acc: Seq<Seq<char>>,
    changed: Seq<Seq<char>>,
    tasks: Seq<TaskView>,
) -> Seq<Seq<char>>
    decreases tasks.len(),
{
    if tasks.len() == 0 {
        acc
    } else {
        let rest = with_dependents(acc, changed, tasks.drop_last());
        if depends_on_any(tasks.last(), changed) {
            with_member(rest, tasks.last().id)
        } else {
            rest
        }
    }
}

/// The ids that the changes reach: the changed ones, then the tasks that
/// depend on a changed one. Dependents of dependents are not followed.
pub open spec fn impacted_ids(changes: Seq<TaskChangeView>, tasks: Seq<TaskView>) -> Seq<
    Seq<char>,
> {
    with_dependents(changed_ids(changes), changed_ids(changes), tasks)
}

/// Where the snapshot of a tag is kept.
pub open spec fn snapshot_path_of(tag: Seq<char>) -> Seq<char> {
    ".taskmaster/snapshots/"@ + tag + "-snapshot.json"@
}

/// The text of the error for a tag that the task list does not have.
pub open spec fn tag_not_found(tag: Seq<char>) -> ErrorView {
    ErrorView::InvalidTaskFormat("Tag '"@ + tag + "' not found"@)
}

/// Finds what changed in one tag since its last snapshot.
pub struct DeltaSyncEngine {
    snapshot_path: String,
}

impl DeltaSyncEngine {
    /// The path of the snapshot file.
    pub closed spec fn path(&self) -> Seq<char> {
        self.snapshot_path@
    }

    /// The engine for the tag `tag`.
    pub fn new(tag: &str) -> (e: DeltaSyncEngine)
        ensures
            e.path() == snapshot_path_of(tag@),
    {
        DeltaSyncEngine {
            snapshot_path: concat3(".taskmaster/snapshots/", tag, "-snapshot.json"),
        }
    }

    /// The path of the snapshot file.
    pub fn snapshot_path(&self) -> (p: &str)
        ensures
            p@ == self.path(),
    {
        self.snapshot_path.as_str()
    }

    /// The fingerprint of a task.
    pub fn create_fingerprint(&self, task: &Task) -> (fp: TaskFingerprint)
        ensures
            fp@ == fingerprint_of(task@),
    {
        let description_text = debug_text(task.description.as_str());
        let details_text = debug_opt(&task.details);
        let strategy_text = debug_opt(&task.test_strategy);
        let content = content_text(
            description_text.as_str(),
            as_opt_str(&details_text),
            as_opt_str(&strategy_text),
            task.subtasks.len(),
        );
        proof {
            crate::models::task::lemma_subtasks_view(*task);
        }
        let content_hash = md5_hex(content.as_str());
        fingerprint_with(task, content_hash)
    }

    /// The snapshot of a list of tasks, stamped with the time of the call.
    pub fn create_snapshot(&self, tasks: &[Task]) -> (snapshot: TaskSnapshot)
        ensures
            snapshot.tasks.pairs() == snapshot_pairs(tasks.deep_view()),
    {
        let mut map: StrMap<TaskFingerprint> = StrMap::new();
        let mut i: usize = 0;
        let ghost all = tasks.deep_view();
        assert(all.subrange(0, 0) =~= Seq::<TaskView>::empty());
        while i < tasks.len()
            invariant
                i <= tasks.len(),
                all == tasks.deep_view(),
                map.pairs() == snapshot_pairs(all.subrange(0, i as int)),
            decreases tasks.len() - i,
        {
            let fp = self.create_fingerprint(&tasks[i]);
            assert(all.subrange(0, i + 1).drop_last() =~= all.subrange(0, i as int));
            assert(all.subrange(0, i + 1).last() == tasks@[i as int]@);
            map.insert(tasks[i].id.clone(), fp);
            i = i + 1;
        }
        assert(all.subrange(0, i as int) =~= all);
        TaskSnapshot { tasks: map, timestamp: now() }
    }

    /// The difference between two snapshots. `current_tasks` are the tasks that
    /// `current` was taken of: additions and modifications carry them.
    pub fn compare_snapshots(
        &self,
        previous: &TaskSnapshot,
        current: &TaskSnapshot,
        current_tasks: &[Task],
    ) -> (r: Result<Vec<TaskChange>, TaskMasterError>)
        ensures
            r is Ok,
            r->Ok_0.deep_view() == snapshot_changes(
                previous.tasks.pairs(),
                current.tasks.pairs(),
                current_tasks.deep_view(),
            ),
    {
        let mut changes: Vec<TaskChange> = Vec::new();
        let ghost prev = previous.tasks.pairs();
        let ghost cur = current.tasks.pairs();
        let ghost tasks = current_tasks.deep_view();
        let n = previous.tasks.len();
        let mut i: usize = 0;
        assert(prev.subrange(0, 0) =~= Seq::<(Seq<char>, TaskFingerprintView)>::empty());
        assert(changes.deep_view() =~= Seq::<TaskChangeView>::empty());
        while i < n
            invariant
                i <= n,
                n == prev.len(),
                prev == previous.tasks.pairs(),
                cur == current.tasks.pairs(),
                tasks == current_tasks.deep_view(),
                changes.deep_view() == changes_of_previous(prev.subrange(0, i as int), cur, tasks),
            decreases n - i,
        {
            let id = previous.tasks.key_at(i);
            let fp = previous.tasks.value_at(i);
            let ghost before = changes.deep_view();
            proof {
                assert(prev.subrange(0, i + 1).drop_last() =~= prev.subrange(0, i as int));
                assert(prev.subrange(0, i + 1).last() == prev[i as int]);
            }
            match current.tasks.get(id.as_str()) {
                Some(now) => {
                    if !fp.same_as(now) {
                        match find_task(current_tasks, id.as_str()) {
                            Some(k) => {
                                let change = TaskChange::Modified(
                                    Box::new(current_tasks[k].clone()),
                                    Box::new(current_tasks[k].clone()),
                                );
                                changes.push(change);
                                assert(changes.deep_view() =~= before.push(change@));
                            },
                            None => {},
                        }
                    }
                },
                None => {
                    let removed = Task {
                        id: id.clone(),
                        title: fp.title.clone(),
                        description: String::new(),
                        status: fp.status.clone(),
                        priority: clone_opt(&fp.priority),
                        dependencies: clone_strings(&fp.dependencies),
                        details: None,
                        test_strategy: None,
                        subtasks: Vec::new(),
                        assignee: clone_opt(&fp.assignee),
                    };
                    assert(removed@.subtasks =~= Seq::<TaskView>::empty());
                    assert(removed@ == removed_task(id@, fp@));
                    let change = TaskChange::Removed(Box::new(removed));
                    changes.push(change);
                    assert(changes.deep_view() =~= before.push(change@));
                },
            }
            i = i + 1;
        }
        assert(prev.subrange(0, i as int) =~= prev);
        let ghost first = changes.deep_view();
        let m = current.tasks.len();
        let mut j: usize = 0;
        assert(cur.subrange(0, 0) =~= Seq::<(Seq<char>, TaskFingerprintView)>::empty());
        assert(first + Seq::<TaskChangeView>::empty() =~= first);
        while j < m
            invariant
                j <= m,
                m == cur.len(),
                prev == previous.tasks.pairs(),
                cur == current.tasks.pairs(),
                tasks == current_tasks.deep_view(),
                changes.deep_view() == first + changes_of_current(
                    prev,
                    cur.subrange(0, j as int),
                    tasks,
                ),
            decreases m - j,
        {
            let id = current.tasks.key_at(j);
            let ghost before = changes.deep_view();
            let ghost done = changes_of_current(prev, cur.subrange(0, j as int), tasks);
            proof {
                assert(cur.subrange(0, j + 1).drop_last() =~= cur.subrange(0, j as int));
                assert(cur.subrange(0, j + 1).last() == cur[j as int]);
            }
            if !previous.tasks.contains_key(id.as_str()) {
                match find_task(current_tasks, id.as_str()) {
                    Some(k) => {
                        let change = TaskChange::Added(Box::new(current_tasks[k].clone()));
                        changes.push(change);
                        assert(changes.deep_view() =~= before.push(change@));
                        assert(before.push(change@) =~= first + done.push(change@));
                    },
                    None => {},
                }
            }
            j = j + 1;
        }
        assert(cur.subrange(0, j as int) =~= cur);
        Ok(changes)
    }

    /// The ids that the changes reach: those of the changed tasks, and those of
    /// the tasks that depend on a changed task directly.
    pub fn calculate_impacted_tasks(&self, changes: &[TaskChange], all_tasks: &[Task]) -> (r:
        StrSet)
        ensures
            r.members() == impacted_ids(changes.deep_view(), all_tasks.deep_view()),
    {
        let mut changed = StrSet::new();
        let mut impacted = StrSet::new();
        let ghost cv = changes.deep_view();
        let ghost tv = all_tasks.deep_view();
        let mut i: usize = 0;
        assert(cv.subrange(0, 0) =~= Seq::<TaskChangeView>::empty());
        while i < changes.len()
            invariant
                i <= changes.len(),
                cv == changes.deep_view(),
                changed.members() == changed_ids(cv.subrange(0, i as int)),
                impacted.members() == changed.members(),
            decreases changes.len() - i,
        {
            proof {
                assert(cv.subrange(0, i + 1).drop_last() =~= cv.subrange(0, i as int));
                assert(cv.subrange(0, i + 1).last() == changes@[i as int]@);
            }
            match &changes[i] {
                TaskChange::Added(task) => {
                    changed.insert(task.id.clone());
                    impacted.insert(task.id.clone());
                },
                TaskChange::Modified(_, task) => {
                    changed.insert(task.id.clone());
                    impacted.insert(task.id.clone());
                },
                TaskChange::Removed(task) => {
                    changed.insert(task.id.clone());
                    impacted.insert(task.id.clone());
                },
            }
            i = i + 1;
        }
        assert(cv.subrange(0, i as int) =~= cv);
        let mut k: usize = 0;
        assert(tv.subrange(0, 0) =~= Seq::<TaskView>::empty());
        while k < all_tasks.len()
            invariant
                k <= all_tasks.len(),
                tv == all_tasks.deep_view(),
                changed.members() == changed_ids(cv),
                impacted.members() == with_dependents(
                    changed_ids(cv),
                    changed_ids(cv),
                    tv.subrange(0, k as int),
                ),
            decreases all_tasks.len() - k,
        {
            proof {
                assert(tv.subrange(0, k + 1).drop_last() =~= tv.subrange(0, k as int));
                assert(tv.subrange(0, k + 1).last() == all_tasks@[k as int]@);
            }
            if depends_on_changed(&all_tasks[k], &changed) {
                impacted.insert(all_tasks[k].id.clone());
            }
            k = k + 1;
        }
        assert(tv.subrange(0, k as int) =~= tv);
        impacted
    }

    /// Finds what changed in the tag `tag` since `previous`, the snapshot of the
    /// last run if one could be read. Hands back the changes together with the
    /// snapshot of the tag's tasks as they are now, which is to be kept for the
    /// next run. Without a previous snapshot every task is an addition. Fails
    /// if and only if the task list has no such tag.
    pub fn detect_changes(
        &self,
        previous: Option<&TaskSnapshot>,
        current_tasks: &StrMap<Vec<Task>>,
        tag: &str,
    ) -> (r: Result<(ChangeSet, TaskSnapshot), TaskMasterError>)
        ensures
            match lookup(current_tasks.pairs(), tag@) {
                None => r is Err && r->Err_0@ == tag_not_found(tag@),
                Some(tasks) => {
                    &&& r is Ok
                    &&& r->Ok_0.1.tasks.pairs() == snapshot_pairs(tasks)
                    &&& r->Ok_0.0.changes.deep_view() == match previous {
                        Some(p) => snapshot_changes(p.tasks.pairs(), snapshot_pairs(tasks), tasks),
                        None => all_added(tasks),
                    }
                    &&& r->Ok_0.0.impacted_task_ids.members() == impacted_ids(
                        r->Ok_0.0.changes.deep_view(),
                        tasks,
                    )
                },
            },
    {
        let tasks = match current_tasks.get(tag) {
            Some(tasks) => tasks,
            None => {
                return Err(
                    TaskMasterError::InvalidTaskFormat(concat3("Tag '", tag, "' not found")),
                );
            },
        };
        let current = self.create_snapshot(tasks.as_slice());
        let changes = match previous {
            Some(p) => {
                match self.compare_snapshots(p, &current, tasks.as_slice()) {
                    Ok(changes) => changes,
                    Err(e) => {
                        return Err(e);
                    },
                }
            },
            None => {
                let mut changes: Vec<TaskChange> = Vec::new();
                let mut i: usize = 0;
                while i < tasks.len()
                    invariant
                        i <= tasks.len(),
                        changes@.len() == i,
                        forall|j: int|
                            0 <= j < i ==> changes@[j]@ == TaskChangeView::Added(tasks@[j]@),
                    decreases tasks.len() - i,
                {
                    changes.push(TaskChange::Added(Box::new(tasks[i].clone())));
                    i = i + 1;
                }
                assert(changes.deep_view() =~= all_added(tasks.deep_view()));
                changes
            },
        };
        let impacted_task_ids = self.calculate_impacted_tasks(changes.as_slice(), tasks.as_slice());
        Ok((ChangeSet { changes, impacted_task_ids }, current))
    }
}

/// An optional string with its text as it is written for debugging.
fn debug_opt(o: &Option<String>) -> (r: Option<String>)
    ensures
        r.deep_view() == opt_debug(o.deep_view()),
{
    match o {
        Some(s) => Some(debug_text(s.as_str())),
        None => None,
    }
}

/// An optional string as an optional slice.
fn as_opt_str(o: &Option<String>) -> (r: Option<&str>)
    ensures
        r.deep_view() == o.deep_view(),
{
    match o {
        Some(s) => Some(s.as_str()),
        None => None,
    }
}

/// Appends an optional text in the form of `opt_text`.
fn append_opt_text(out: &mut String, o: Option<&str>)
    ensures
        final(out)@ == old(out)@ + opt_text(o.deep_view()),
{
    match o {
        Some(s) => {
            let ghost start = out@;
            out.append("Some(");
            out.append(s);
            out.append(")");
            assert(out@ =~= start + ("Some("@ + s@ + ")"@));
        },
        None => {
            out.append("None");
        },
    }
}

/// The text that a content hash is taken of, given description, details and
/// test strategy as they are written for debugging.
pub fn content_text(
    description_text: &str,
    details_text: Option<&str>,
    strategy_text: Option<&str>,
    subtask_count: usize,
) -> (r: String)
    ensures
        r@ == content_text_of(
            description_text@,
            details_text.deep_view(),
            strategy_text.deep_view(),
            subtask_count as nat,
        ),
{
    let mut content = crate::text::owned(description_text);
    content.append(":");
    append_opt_text(&mut content, details_text);
    content.append(":");
    append_opt_text(&mut content, strategy_text);
    content.append(":");
    let count = decimal_string(subtask_count);
    content.append(count.as_str());
    content
}

/// The fingerprint of a task whose content hash is `content_hash`: id, title,
/// status, priority, assignee and dependencies of the task, and the hash.
pub fn fingerprint_with(task: &Task, content_hash: String) -> (fp: TaskFingerprint)
    ensures
        fp@ == (TaskFingerprintView { content_hash: content_hash@, ..fingerprint_of(task@) }),
{
    TaskFingerprint {
        id: task.id.clone(),
        title: task.title.clone(),
        status: task.status.clone(),
        priority: clone_opt(&task.priority),
        assignee: clone_opt(&task.assignee),
        dependencies: clone_strings(&task.dependencies),
        content_hash,
    }
}

/// The place of the last task with the id `id`.
#[verifier::loop_isolation(false)]
pub fn find_task(tasks: &[Task], id: &str) -> (r: Option<usize>)
    ensures
        match r {
            Some(k) => k < tasks@.len() && task_with_id(tasks.deep_view(), id@) == Some(
                tasks@[k as int]@,
            ),
            None => task_with_id(tasks.deep_view(), id@) is None,
        },
{
    let ghost all = tasks.deep_view();
    let mut i: usize = tasks.len();
    assert(all.subrange(0, i as int) =~= all);
    while i > 0
        invariant
            i <= tasks.len(),
            task_with_id(all, id@) == task_with_id(all.subrange(0, i as int), id@),
        decreases i,
    {
        let ghost cur = all.subrange(0, i as int);
        assert(cur.last() == tasks@[i - 1]@);
        assert(cur.drop_last() =~= all.subrange(0, i - 1));
        if str_eq(tasks[i - 1].id.as_str(), id) {
            return Some(i - 1);
        }
        i = i - 1;
    }
    None
}

/// Whether some dependency of the task is a member of `changed`.
#[verifier::loop_isolation(false)]
fn depends_on_changed(task: &Task, changed: &StrSet) -> (r: bool)
    ensures
        r == depends_on_any(task@, changed.members()),
{
    let mut d: usize = 0;
    while d < task.dependencies.len()
        invariant
            d <= task.dependencies.len(),
            forall|e: int| 0 <= e < d ==> !changed.members().contains(#[trigger] task@.dependencies[e]),
        decreases task.dependencies.len() - d,
    {
        assert(task@.dependencies[d as int] == task.dependencies@[d as int]@);
        if changed.contains(task.dependencies[d].as_str()) {
            return true;
        }
        d = d + 1;
    }
    false
}

} // verus!
