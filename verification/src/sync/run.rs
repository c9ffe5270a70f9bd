//! One run of the synchronisation as a sequence of steps. For each task the
//! run says what is to be done; the caller does it on the remote side and
//! reports what came of it; the run then counts it and brings the state up
//! to date.

use crate::clock::Timestamp;
use crate::delta::{ChangeSet, TaskChange, TaskChangeView};
use crate::error::{error_message, ErrorView, TaskMasterError};
use crate::github::{CreateItemResult, CreateItemResultView};
use crate::models::github::{ProjectItem, ProjectItemView};
use crate::models::task::{Task, TaskView};
use crate::progress::{no_stats, SyncStats, SyncStatsView};
use crate::state::{metadata_updated, recorded, removed, StateTracker, SyncStateView};
use crate::strmap::{distinct_keys, lookup, put, StrMap};
use crate::sync::{item_tm_id, tm_id_of, SyncOptions};
use crate::text::{owned, str_eq};
use vstd::prelude::*;

verus! {

/// The remote items by the id of their task. Of two items of one task the
/// later one counts.
pub open spec fn index_by_id(items: Seq<ProjectItemView>) -> Seq<(Seq<char>, ProjectItemView)>
    decreases items.len(),
{
    if items.len() == 0 {
        Seq::empty()
    } else {
        let rest = index_by_id(items.drop_last());
        match tm_id_of(items.last().field_values) {
            Some(id) => put(rest, id, items.last()),
            None => rest,
        }
    }
}

/// The items of one title in the index, in order.
pub open spec fn titled(index: Seq<(Seq<char>, Seq<ProjectItemView>)>, title: Seq<char>) -> Seq<
    ProjectItemView,
> {
    match lookup(index, title) {
        Some(list) => list,
        None => Seq::empty(),
    }
}

/// The remote items by title; one title can have several items.
pub open spec fn index_by_title(items: Seq<ProjectItemView>) -> Seq<
    (Seq<char>, Seq<ProjectItemView>),
>
    decreases items.len(),
{
    if items.len() == 0 {
        Seq::empty()
    } else {
        let rest = index_by_title(items.drop_last());
        put(rest, items.last().title, titled(rest, items.last().title).push(items.last()))
    }
}

/// A run, as plain values.
pub struct RunView {
    pub dry_run: bool,
    /// The remote items by the id of their task.
    pub id_index: Seq<(Seq<char>, ProjectItemView)>,
    /// The remote items by title.
    pub title_index: Seq<(Seq<char>, Seq<ProjectItemView>)>,
    pub stats: SyncStatsView,
}

/// No key occurs twice in either index of the run: a task has one item in
/// the index of ids, and a title one list in the index of titles.
pub open spec fn well_indexed(run: RunView) -> bool {
    distinct_keys(run.id_index) && distinct_keys(run.title_index)
}

/// The run at its start: the indexes of the remote items, and no figures yet.
pub open spec fn started(
    dry_run: bool,
    items: Seq<ProjectItemView>,
    total_tasks: nat,
    at: Timestamp,
) -> RunView {
    RunView {
        dry_run: dry_run,
        id_index: index_by_id(items),
        title_index: index_by_title(items),
        stats: SyncStatsView { total_tasks: total_tasks, start_time: Some(at), ..no_stats() },
    }
}

/// What is to be done for a task.
#[derive(Debug)]
pub enum TaskAction {
    /// Nothing: the run is a dry run.
    Skip,
    /// Update this item, which is the one of the task.
    Update(ProjectItem),
    /// Update this item, which has the title of the task and belongs to no
    /// task yet.
    UpdateDuplicate(ProjectItem),
    /// Create an item.
    Create,
}

/// An action, as plain values.
pub enum TaskActionView {
    Skip,
    Update(ProjectItemView),
    UpdateDuplicate(ProjectItemView),
    Create,
}

impl View for TaskAction {
    type V = TaskActionView;

    open spec fn view(&self) -> TaskActionView {
        match self {
            TaskAction::Skip => TaskActionView::Skip,
            TaskAction::Update(item) => TaskActionView::Update(item@),
            TaskAction::UpdateDuplicate(item) => TaskActionView::UpdateDuplicate(item@),
            TaskAction::Create => TaskActionView::Create,
        }
    }
}

/// The item with the id `item_id` is that of some task: the index of ids
/// holds it.
pub open spec fn is_mapped(id_index: Seq<(Seq<char>, ProjectItemView)>, item_id: Seq<char>) -> bool {
    exists|i: int| 0 <= i < id_index.len() && (#[trigger] id_index[i]).1.id == item_id
}

/// The items of the list that are the item of no task yet, in order.
pub open spec fn untracked(
    id_index: Seq<(Seq<char>, ProjectItemView)>,
    items: Seq<ProjectItemView>,
) -> Seq<ProjectItemView>
    decreases items.len(),
{
    if items.len() == 0 {
        Seq::empty()
    } else {
        let rest = untracked(id_index, items.drop_last());
        if is_mapped(id_index, items.last().id) {
            rest
        } else {
            rest.push(items.last())
        }
    }
}

/// The items that may be the lost item of a task: those with the title of
/// the task that are the item of no task yet.
pub open spec fn candidates(run: RunView, t: TaskView) -> Seq<ProjectItemView> {
    untracked(run.id_index, titled(run.title_index, t.title))
}

/// What is to be done for a task: nothing in a dry run; else an update of
/// the item that carries the id of the task; else an update of the one item
/// that has the title of the task and is the item of no task yet; else,
/// with no or several such items, a creation.
pub open spec fn decide(run: RunView, t: TaskView) -> TaskActionView {
    if run.dry_run {
        TaskActionView::Skip
    } else {
        match lookup(run.id_index, t.id) {
            Some(item) => TaskActionView::Update(item),
            None => if candidates(run, t).len() == 1 {
                TaskActionView::UpdateDuplicate(candidates(run, t)[0])
            } else {
                TaskActionView::Create
            },
        }
    }
}

/// What came of the action for a task.
#[derive(Debug)]
pub enum StepOutcome {
    /// Nothing was to be done.
    Skipped,
    /// The item was updated.
    Updated,
    /// The item was created.
    Created(CreateItemResult),
    /// The update or the creation failed.
    Failed(TaskMasterError),
}

/// An outcome, as plain values.
pub enum StepOutcomeView {
    Skipped,
    Updated,
    Created(CreateItemResultView),
    Failed(ErrorView),
}

impl View for StepOutcome {
    type V = StepOutcomeView;

    open spec fn view(&self) -> StepOutcomeView {
        match self {
            StepOutcome::Skipped => StepOutcomeView::Skipped,
            StepOutcome::Updated => StepOutcomeView::Updated,
            StepOutcome::Created(r) => StepOutcomeView::Created(r@),
            StepOutcome::Failed(e) => StepOutcomeView::Failed(e@),
        }
    }
}

/// The run with one more error.
pub open spec fn with_error(run: RunView, text: Seq<char>) -> RunView {
    RunView { stats: SyncStatsView { errors: run.stats.errors.push(text), ..run.stats }, ..run }
}

/// The run with one more task skipped.
pub open spec fn count_skipped(run: RunView) -> RunView {
    RunView { stats: SyncStatsView { skipped: run.stats.skipped + 1, ..run.stats }, ..run }
}

/// The run with one more item updated.
pub open spec fn count_updated(run: RunView) -> RunView {
    RunView { stats: SyncStatsView { updated: run.stats.updated + 1, ..run.stats }, ..run }
}

/// The run with one more item created.
pub open spec fn count_created(run: RunView) -> RunView {
    RunView { stats: SyncStatsView { created: run.stats.created + 1, ..run.stats }, ..run }
}

/// The run with one more item deleted.
pub open spec fn count_deleted(run: RunView) -> RunView {
    RunView { stats: SyncStatsView { deleted: run.stats.deleted + 1, ..run.stats }, ..run }
}

/// The line of a failure: what failed, for which task, and why.
pub open spec fn failure_line(what: Seq<char>, id: Seq<char>, e: ErrorView) -> Seq<char> {
    what + id + ": "@ + error_message(e)
}

/// The run and the state after the step for one task. A skipped task is
/// counted as skipped. An update that went through is counted, brings the
/// metadata of the task up to date, and, where the item was found by its
/// title, enters it in the index under the id of the task. A creation that
/// went through is counted and recorded in the state. A failure adds its
/// line to the errors and leaves the rest alone. An outcome that does not
/// answer the action changes nothing.
pub open spec fn step(
    run: RunView,
    state: SyncStateView,
    t: TaskView,
    outcome: StepOutcomeView,
    at: Timestamp,
) -> (RunView, SyncStateView) {
    match (decide(run, t), outcome) {
        (TaskActionView::Skip, StepOutcomeView::Skipped) => (count_skipped(run), state),
        (TaskActionView::Update(_), StepOutcomeView::Updated) => (
            count_updated(run),
            metadata_updated(state, t.id, t.title, t.status, at),
        ),
        (TaskActionView::Update(_), StepOutcomeView::Failed(e)) => (
            with_error(run, failure_line("Failed to update "@, t.id, e)),
            state,
        ),
        (TaskActionView::UpdateDuplicate(item), StepOutcomeView::Updated) => (
            RunView { id_index: put(run.id_index, t.id, item), ..count_updated(run) },
            metadata_updated(state, t.id, t.title, t.status, at),
        ),
        (TaskActionView::UpdateDuplicate(_), StepOutcomeView::Failed(e)) => (
            with_error(run, failure_line("Failed to update duplicate "@, t.id, e)),
            state,
        ),
        (TaskActionView::Create, StepOutcomeView::Created(r)) => (
            count_created(run),
            recorded(state, t.id, r.project_item_id, Some(r.draft_issue_id), t.title, t.status, at),
        ),
        (TaskActionView::Create, StepOutcomeView::Failed(e)) => (
            with_error(run, failure_line("Failed to create "@, t.id, e)),
            state,
        ),
        _ => (run, state),
    }
}

/// The run and the state after the steps for a list of tasks, one outcome
/// and one time for each.
pub open spec fn steps(
    run: RunView,
    state: SyncStateView,
    tasks: Seq<TaskView>,
    outcomes: Seq<StepOutcomeView>,
    times: Seq<Timestamp>,
) -> (RunView, SyncStateView)
    decreases tasks.len(),
{
    if tasks.len() == 0 || outcomes.len() != tasks.len() || times.len() != tasks.len() {
        (run, state)
    } else {
        let before = steps(run, state, tasks.drop_last(), outcomes.drop_last(), times.drop_last());
        step(before.0, before.1, tasks.last(), outcomes.last(), times.last())
    }
}

/// What came of a deletion.
#[derive(Debug)]
pub enum DeletionOutcome {
    /// No deletion was sent.
    NotAttempted,
    /// The item was deleted.
    Deleted,
    /// The deletion failed.
    Failed(TaskMasterError),
}

/// The outcome of a deletion, as plain values.
pub enum DeletionOutcomeView {
    NotAttempted,
    Deleted,
    Failed(ErrorView),
}

impl View for DeletionOutcome {
    type V = DeletionOutcomeView;

    open spec fn view(&self) -> DeletionOutcomeView {
        match self {
            DeletionOutcome::NotAttempted => DeletionOutcomeView::NotAttempted,
            DeletionOutcome::Deleted => DeletionOutcomeView::Deleted,
            DeletionOutcome::Failed(e) => DeletionOutcomeView::Failed(e@),
        }
    }
}

/// The id of the item that is to be deleted for the task `id`: that of its
/// item in the index, and none in a dry run.
pub open spec fn deletion_target(run: RunView, id: Seq<char>) -> Option<Seq<char>> {
    if run.dry_run {
        None
    } else {
        match lookup(run.id_index, id) {
            Some(item) => Some(item.id),
            None => None,
        }
    }
}

/// The run and the state after the deletion for a task that is gone from the
/// list of changes. Without item in the index nothing happens. A dry run
/// counts the deletion that would have been sent. Else a deletion that went
/// through is counted and takes the task out of the state, and one that
/// failed adds its line to the errors.
pub open spec fn removal_step(
    run: RunView,
    state: SyncStateView,
    id: Seq<char>,
    outcome: DeletionOutcomeView,
    at: Timestamp,
) -> (RunView, SyncStateView) {
    if lookup(run.id_index, id) is None {
        (run, state)
    } else if run.dry_run {
        (count_deleted(run), state)
    } else {
        match outcome {
            DeletionOutcomeView::Deleted => (count_deleted(run), removed(state, id, at)),
            DeletionOutcomeView::Failed(e) => (
                with_error(run, failure_line("Failed to delete removed task "@, id, e)),
                state,
            ),
            DeletionOutcomeView::NotAttempted => (run, state),
        }
    }
}

/// The run and the state after the deletion for an orphan: as for a task
/// that is gone, but a dry run counts nothing.
pub open spec fn orphan_step(
    run: RunView,
    state: SyncStateView,
    id: Seq<char>,
    outcome: DeletionOutcomeView,
    at: Timestamp,
) -> (RunView, SyncStateView) {
    if lookup(run.id_index, id) is None || run.dry_run {
        (run, state)
    } else {
        match outcome {
            DeletionOutcomeView::Deleted => (count_deleted(run), removed(state, id, at)),
            DeletionOutcomeView::Failed(e) => (
                with_error(run, failure_line("Failed to delete orphaned item "@, id, e)),
                state,
            ),
            DeletionOutcomeView::NotAttempted => (run, state),
        }
    }
}

/// The place of the first task with the id `id`.
pub open spec fn first_index_of_id(tasks: Seq<TaskView>, id: Seq<char>) -> Option<int>
    decreases tasks.len(),
{
    if tasks.len() == 0 {
        None
    } else {
        match first_index_of_id(tasks.drop_last(), id) {
            Some(i) => Some(i),
            None => if tasks.last().id == id {
                Some(tasks.len() - 1)
            } else {
                None
            },
        }
    }
}

/// The places of the tasks that the changes ask to be written: for each
/// addition and modification, in order, the first task with that id.
pub open spec fn work_of(tasks: Seq<TaskView>, changes: Seq<TaskChangeView>) -> Seq<int>
    decreases changes.len(),
{
    if changes.len() == 0 {
        Seq::empty()
    } else {
        let rest = work_of(tasks, changes.drop_last());
        match changes.last() {
            TaskChangeView::Removed(_) => rest,
            c => match first_index_of_id(tasks, c.task_id()) {
                Some(i) => rest.push(i),
                None => rest,
            },
        }
    }
}

/// The ids of the tasks that the changes report as gone, in order.
pub open spec fn removed_of(changes: Seq<TaskChangeView>) -> Seq<Seq<char>>
    decreases changes.len(),
{
    if changes.len() == 0 {
        Seq::empty()
    } else {
        let rest = removed_of(changes.drop_last());
        match changes.last() {
            TaskChangeView::Removed(t) => rest.push(t.id),
            _ => rest,
        }
    }
}

/// The places of all tasks, in order.
pub open spec fn all_places(n: nat) -> Seq<int> {
    Seq::new(n, |i: int| i)
}

/// The work of a run: which tasks are to be written, by their place in the
/// list, and which tasks are gone, by their id.
#[derive(Debug)]
pub struct WorkPlan {
    pub tasks: Vec<usize>,
    pub removed: Vec<String>,
}

/// The places of a plan as numbers.
pub open spec fn places(v: Seq<usize>) -> Seq<int> {
    Seq::new(v.len(), |i: int| v[i] as int)
}

/// The work of a run over `tasks`: with changes, what the changes ask for;
/// without, every task and no removal.
pub fn plan_work(tasks: &[Task], changes: Option<&ChangeSet>) -> (plan: WorkPlan)
    ensures
        match changes {
            Some(c) => places(plan.tasks@) == work_of(tasks.deep_view(), c.changes.deep_view())
                && plan.removed.deep_view() == removed_of(c.changes.deep_view()),
            None => places(plan.tasks@) == all_places(tasks@.len()) && plan.removed@.len() == 0,
        },
        forall|k: int| 0 <= k < plan.tasks@.len() ==> plan.tasks@[k] < tasks@.len(),
{
    let mut work: Vec<usize> = Vec::new();
    let mut gone: Vec<String> = Vec::new();
    match changes {
        None => {
            let mut i: usize = 0;
            while i < tasks.len()
                invariant
                    i <= tasks.len(),
                    work@.len() == i,
                    forall|k: int| 0 <= k < i ==> work@[k] == k,
                decreases tasks.len() - i,
            {
                work.push(i);
                i = i + 1;
            }
            assert(places(work@) =~= all_places(tasks@.len()));
        },
        Some(c) => {
            let ghost all = c.changes.deep_view();
            let ghost tv = tasks.deep_view();
            let mut i: usize = 0;
            assert(all.subrange(0, 0) =~= Seq::<TaskChangeView>::empty());
            assert(places(work@) =~= Seq::<int>::empty());
            assert(gone.deep_view() =~= Seq::<Seq<char>>::empty());
            while i < c.changes.len()
                invariant
                    i <= c.changes.len(),
                    all == c.changes.deep_view(),
                    tv == tasks.deep_view(),
                    places(work@) == work_of(tv, all.subrange(0, i as int)),
                    gone.deep_view() == removed_of(all.subrange(0, i as int)),
                    forall|k: int| 0 <= k < work@.len() ==> work@[k] < tasks@.len(),
                decreases c.changes.len() - i,
            {
                proof {
                    assert(all.subrange(0, i + 1).drop_last() =~= all.subrange(0, i as int));
                    assert(all.subrange(0, i + 1).last() == c.changes@[i as int]@);
                }
                let ghost before = places(work@);
                let ghost gone_before = gone.deep_view();
                match &c.changes[i] {
                    TaskChange::Added(task) => {
                        match first_task(tasks, task.id.as_str()) {
                            Some(k) => {
                                work.push(k);
                                assert(places(work@) =~= before.push(k as int));
                            },
                            None => {},
                        }
                    },
                    TaskChange::Modified(_, task) => {
                        match first_task(tasks, task.id.as_str()) {
                            Some(k) => {
                                work.push(k);
                                assert(places(work@) =~= before.push(k as int));
                            },
                            None => {},
                        }
                    },
                    TaskChange::Removed(task) => {
                        gone.push(task.id.clone());
                        assert(gone.deep_view() =~= gone_before.push(task.id@));
                    },
                }
                i = i + 1;
            }
            assert(all.subrange(0, i as int) =~= all);
        },
    }
    WorkPlan { tasks: work, removed: gone }
}

/// The place of the first task with the id `id`.
#[verifier::loop_isolation(false)]
pub fn first_task(tasks: &[Task], id: &str) -> (r: Option<usize>)
    ensures
        match r {
            Some(k) => k < tasks@.len() && first_index_of_id(tasks.deep_view(), id@) == Some(
                k as int,
            ),
            None => first_index_of_id(tasks.deep_view(), id@) is None,
        },
{
    let ghost all = tasks.deep_view();
    let mut i: usize = 0;
    assert(all.subrange(0, 0) =~= Seq::<TaskView>::empty());
    while i < tasks.len()
        invariant
            i <= tasks.len(),
            first_index_of_id(all.subrange(0, i as int), id@) is None,
        decreases tasks.len() - i,
    {
        let ghost next = all.subrange(0, i + 1);
        assert(next.drop_last() =~= all.subrange(0, i as int));
        assert(next.last() == tasks@[i as int]@);
        if str_eq(tasks[i].id.as_str(), id) {
            proof {
                lemma_first_index_extends(all, id@, i + 1);
            }
            return Some(i);
        }
        i = i + 1;
    }
    assert(all.subrange(0, i as int) =~= all);
    None
}

/// What is found in the beginning of a list is found in the whole list.
pub proof fn lemma_first_index_extends(tasks: Seq<TaskView>, id: Seq<char>, k: int)
    requires
        0 <= k <= tasks.len(),
        first_index_of_id(tasks.subrange(0, k), id) is Some,
    ensures
        first_index_of_id(tasks, id) == first_index_of_id(tasks.subrange(0, k), id),
    decreases tasks.len() - k,
{
    if k == tasks.len() {
        assert(tasks.subrange(0, k) =~= tasks);
    } else {
        let longer = tasks.subrange(0, k + 1);
        assert(longer.drop_last() =~= tasks.subrange(0, k));
        lemma_first_index_extends(tasks, id, k + 1);
    }
}

/// A run of the synchronisation.
pub struct SyncRun {
    dry_run: bool,
    id_index: StrMap<ProjectItem>,
    title_index: StrMap<Vec<ProjectItem>>,
    stats: SyncStats,
}

impl View for SyncRun {
    type V = RunView;

    closed spec fn view(&self) -> RunView {
        RunView {
            dry_run: self.dry_run,
            id_index: self.id_index.pairs(),
            title_index: self.title_index.pairs(),
            stats: self.stats@,
        }
    }
}

impl SyncRun {
    /// A run over the remote items `items`, for `total_tasks` local tasks,
    /// that starts at the time `at`.
    pub fn begin(options: &SyncOptions, items: Vec<ProjectItem>, total_tasks: usize, at: Timestamp) -> (run:
        SyncRun)
        ensures
            run@ == started(options.dry_run, items.deep_view(), total_tasks as nat, at),
            well_indexed(run@),
    {
        let mut id_index: StrMap<ProjectItem> = StrMap::new();
        let mut title_index: StrMap<Vec<ProjectItem>> = StrMap::new();
        let ghost all = items.deep_view();
        let mut i: usize = 0;
        assert(all.subrange(0, 0) =~= Seq::<ProjectItemView>::empty());
        while i < items.len()
            invariant
                i <= items.len(),
                all == items.deep_view(),
                id_index.pairs() == index_by_id(all.subrange(0, i as int)),
                title_index.pairs() == index_by_title(all.subrange(0, i as int)),
            decreases items.len() - i,
        {
            let item = &items[i];
            proof {
                assert(all.subrange(0, i + 1).drop_last() =~= all.subrange(0, i as int));
                assert(all.subrange(0, i + 1).last() == item@);
            }
            match item_tm_id(item) {
                Some(id) => {
                    id_index.insert(id, item.clone());
                },
                None => {},
            }
            let mut list = match title_index.get(item.title.as_str()) {
                Some(l) => clone_items(l),
                None => Vec::new(),
            };
            let ghost before = list.deep_view();
            assert(before =~= titled(title_index.pairs(), item@.title));
            list.push(item.clone());
            assert(list.deep_view() =~= before.push(item@));
            title_index.insert(item.title.clone(), list);
            i = i + 1;
        }
        assert(all.subrange(0, i as int) =~= all);
        let _ = id_index.len();
        let _ = title_index.len();
        SyncRun {
            dry_run: options.dry_run,
            id_index,
            title_index,
            stats: SyncStats::starting(total_tasks, Some(at)),
        }
    }

    /// Whether the run is a dry run.
    pub fn is_dry_run(&self) -> (r: bool)
        ensures
            r == self@.dry_run,
    {
        self.dry_run
    }

    /// The figures of the run so far.
    pub fn stats(&self) -> (s: &SyncStats)
        ensures
            s@ == self@.stats,
    {
        &self.stats
    }

    /// Ends the run and hands out its figures.
    pub fn into_stats(self) -> (s: SyncStats)
        ensures
            s@ == self@.stats,
    {
        self.stats
    }

    /// Whether each of the four counts can still grow by one.
    pub open spec fn has_room(&self) -> bool {
        &&& self@.stats.created < usize::MAX
        &&& self@.stats.updated < usize::MAX
        &&& self@.stats.deleted < usize::MAX
        &&& self@.stats.skipped < usize::MAX
    }

    /// Whether each of the four counts can still grow by one.
    pub fn can_count(&self) -> (r: bool)
        ensures
            r == self.has_room(),
    {
        self.stats.created < usize::MAX && self.stats.updated < usize::MAX && self.stats.deleted
            < usize::MAX && self.stats.skipped < usize::MAX
    }

    /// What is to be done for a task.
    pub fn decide_task(&self, task: &Task) -> (action: TaskAction)
        ensures
            action@ == decide(self@, task@),
            well_indexed(self@),
    {
        let _ = self.id_index.len();
        let _ = self.title_index.len();
        if self.dry_run {
            return TaskAction::Skip;
        }
        match self.id_index.get(task.id.as_str()) {
            Some(item) => TaskAction::Update(item.clone()),
            None => {
                match self.title_index.get(task.title.as_str()) {
                    Some(list) => {
                        let found = self.untracked_items(list);
                        if found.len() == 1 {
                            assert(found.deep_view()[0] == found@[0]@);
                            TaskAction::UpdateDuplicate(found[0].clone())
                        } else {
                            TaskAction::Create
                        }
                    },
                    None => TaskAction::Create,
                }
            },
        }
    }

    /// Whether the item with the id `item_id` is that of some task.
    #[verifier::loop_isolation(false)]
    pub fn is_tracked(&self, item_id: &str) -> (r: bool)
        ensures
            r == is_mapped(self@.id_index, item_id@),
            well_indexed(self@),
    {
        let _ = self.title_index.len();
        let n = self.id_index.len();
        let mut i: usize = 0;
        while i < n
            invariant
                i <= n,
                forall|j: int| 0 <= j < i ==> (#[trigger] self@.id_index[j]).1.id != item_id@,
            decreases n - i,
        {
            if str_eq(self.id_index.value_at(i).id.as_str(), item_id) {
                assert(self@.id_index[i as int].1.id == item_id@);
                return true;
            }
            i = i + 1;
        }
        false
    }

    /// The items of the list that are the item of no task yet, in order.
    fn untracked_items<'a>(&self, items: &'a Vec<ProjectItem>) -> (r: Vec<&'a ProjectItem>)
        ensures
            r.deep_view() == untracked(self@.id_index, items.deep_view()),
    {
        let mut r: Vec<&ProjectItem> = Vec::new();
        let ghost all = items.deep_view();
        let mut i: usize = 0;
        assert(all.subrange(0, 0) =~= Seq::<ProjectItemView>::empty());
        assert(r.deep_view() =~= Seq::<ProjectItemView>::empty());
        while i < items.len()
            invariant
                i <= items.len(),
                all == items.deep_view(),
                r.deep_view() == untracked(self@.id_index, all.subrange(0, i as int)),
            decreases items.len() - i,
        {
            let ghost before = r.deep_view();
            proof {
                assert(all.subrange(0, i + 1).drop_last() =~= all.subrange(0, i as int));
                assert(all.subrange(0, i + 1).last() == items@[i as int]@);
            }
            if !self.is_tracked(items[i].id.as_str()) {
                r.push(&items[i]);
                assert(r.deep_view() =~= before.push(items@[i as int]@));
            }
            i = i + 1;
        }
        assert(all.subrange(0, i as int) =~= all);
        r
    }

    /// Takes note of what came of the action for a task: counts it, and
    /// brings the state up to date, at the time `at`.
    pub fn apply(&mut self, state: &mut StateTracker, task: &Task, outcome: StepOutcome, at: Timestamp)
        requires
            old(self).has_room(),
        ensures
            (final(self)@, final(state)@) == step(old(self)@, old(state)@, task@, outcome@, at),
            final(state).file() == old(state).file(),
            well_indexed(old(self)@),
            well_indexed(final(self)@),
    {
        let action = self.decide_task(task);
        match (action, outcome) {
            (TaskAction::Skip, StepOutcome::Skipped) => {
                self.stats.skipped = self.stats.skipped + 1;
            },
            (TaskAction::Update(_), StepOutcome::Updated) => {
                self.stats.updated = self.stats.updated + 1;
                let _ = state.update_task_metadata_at(task.id.as_str(), task, at);
            },
            (TaskAction::Update(_), StepOutcome::Failed(e)) => {
                self.note_failure("Failed to update ", task.id.as_str(), &e);
            },
            (TaskAction::UpdateDuplicate(item), StepOutcome::Updated) => {
                self.stats.updated = self.stats.updated + 1;
                let _ = state.update_task_metadata_at(task.id.as_str(), task, at);
                self.id_index.insert(task.id.clone(), item);
            },
            (TaskAction::UpdateDuplicate(_), StepOutcome::Failed(e)) => {
                self.note_failure("Failed to update duplicate ", task.id.as_str(), &e);
            },
            (TaskAction::Create, StepOutcome::Created(result)) => {
                self.stats.created = self.stats.created + 1;
                let _ = state.record_synced_at(
                    task.id.as_str(),
                    result.project_item_id.as_str(),
                    Some(result.draft_issue_id.as_str()),
                    task,
                    at,
                );
            },
            (TaskAction::Create, StepOutcome::Failed(e)) => {
                self.note_failure("Failed to create ", task.id.as_str(), &e);
            },
            _ => {},
        }
    }

    /// Adds the line of a failure to the errors.
    fn note_failure(&mut self, what: &str, id: &str, e: &TaskMasterError)
        ensures
            final(self)@ == with_error(old(self)@, failure_line(what@, id@, e@)),
    {
        let mut line = owned(what);
        line.append(id);
        line.append(": ");
        let message = e.message();
        line.append(message.as_str());
        let ghost before = self.stats.errors.deep_view();
        self.stats.errors.push(line);
        assert(self.stats.errors.deep_view() =~= before.push(failure_line(what@, id@, e@)));
    }

    /// The id of the item that is to be deleted for the task `task_id`, if a
    /// deletion is to be sent.
    pub fn deletion_request(&self, task_id: &str) -> (r: Option<String>)
        ensures
            r.deep_view() == deletion_target(self@, task_id@),
            well_indexed(self@),
    {
        let _ = self.id_index.len();
        let _ = self.title_index.len();
        if self.dry_run {
            return None;
        }
        match self.id_index.get(task_id) {
            Some(item) => Some(item.id.clone()),
            None => None,
        }
    }

    /// Takes note of what came of the deletion for a task that is gone from
    /// the list of changes.
    pub fn apply_removal(
        &mut self,
        state: &mut StateTracker,
        task_id: &str,
        outcome: DeletionOutcome,
        at: Timestamp,
    )
        requires
            old(self).has_room(),
        ensures
            (final(self)@, final(state)@) == removal_step(
                old(self)@,
                old(state)@,
                task_id@,
                outcome@,
                at,
            ),
            final(state).file() == old(state).file(),
            well_indexed(old(self)@),
            well_indexed(final(self)@),
    {
        let _ = self.id_index.len();
        let _ = self.title_index.len();
        if !self.id_index.contains_key(task_id) {
            return ;
        }
        if self.dry_run {
            self.stats.deleted = self.stats.deleted + 1;
            return ;
        }
        match outcome {
            DeletionOutcome::Deleted => {
                self.stats.deleted = self.stats.deleted + 1;
                let _ = state.remove_task_at(task_id, at);
            },
            DeletionOutcome::Failed(e) => {
                self.note_failure("Failed to delete removed task ", task_id, &e);
            },
            DeletionOutcome::NotAttempted => {},
        }
    }

    /// Takes note of what came of the deletion for an orphan.
    pub fn apply_orphan(
        &mut self,
        state: &mut StateTracker,
        orphan_id: &str,
        outcome: DeletionOutcome,
        at: Timestamp,
    )
        requires
            old(self).has_room(),
        ensures
            (final(self)@, final(state)@) == orphan_step(
                old(self)@,
                old(state)@,
                orphan_id@,
                outcome@,
                at,
            ),
            final(state).file() == old(state).file(),
            well_indexed(old(self)@),
            well_indexed(final(self)@),
    {
        let _ = self.id_index.len();
        let _ = self.title_index.len();
        if !self.id_index.contains_key(orphan_id) || self.dry_run {
            return ;
        }
        match outcome {
            DeletionOutcome::Deleted => {
                self.stats.deleted = self.stats.deleted + 1;
                let _ = state.remove_task_at(orphan_id, at);
            },
            DeletionOutcome::Failed(e) => {
                self.note_failure("Failed to delete orphaned item ", orphan_id, &e);
            },
            DeletionOutcome::NotAttempted => {},
        }
    }
}

/// A copy of a list of items.
fn clone_items(items: &Vec<ProjectItem>) -> (r: Vec<ProjectItem>)
    ensures
        r.deep_view() == items.deep_view(),
{
    let mut r: Vec<ProjectItem> = Vec::new();
    let mut i: usize = 0;
    while i < items.len()
        invariant
            i <= items.len(),
            r@.len() == i,
            forall|j: int| 0 <= j < i ==> r@[j]@ == items@[j]@,
        decreases items.len() - i,
    {
        r.push(items[i].clone());
        i = i + 1;
    }
    assert(r.deep_view() =~= items.deep_view());
    r
}

} // verus!
