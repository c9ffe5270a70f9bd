//! What holds of every run of the synchronisation.

use crate::clock::Timestamp;
use crate::delta::{snapshot_changes, snapshot_pairs};
use crate::delta_laws::lemma_unchanged_tasks_have_no_changes;
use crate::models::github::ProjectItemView;
use crate::models::task::TaskView;
use crate::state::SyncStateView;
use crate::strmap::{distinct_keys, has_key, lemma_put, lookup};
use crate::fields::{creatable_fields, RequiredField};
use crate::models::github::CustomFieldView;
use crate::sync::run::{
    well_indexed, candidates, is_mapped, untracked, decide, deletion_target, index_by_id, index_by_title, orphan_step, removal_step, removed_of,
    started, step, steps, titled, work_of, DeletionOutcomeView, RunView, StepOutcomeView,
    TaskActionView,
};
use vstd::prelude::*;

verus! {

/// The tasks at the given places of a list.
pub open spec fn tasks_at(tasks: Seq<TaskView>, work: Seq<int>) -> Seq<TaskView> {
    Seq::new(work.len(), |k: int| tasks[work[k]])
}

/// All outcomes say that the task was skipped.
pub open spec fn all_skipped(outcomes: Seq<StepOutcomeView>) -> bool {
    forall|i: int| 0 <= i < outcomes.len() ==> #[trigger] outcomes[i] == StepOutcomeView::Skipped
}

/// A run starts without anything counted and without errors.
pub proof fn lemma_started_counts_nothing(
    dry_run: bool,
    items: Seq<ProjectItemView>,
    total_tasks: nat,
    at: Timestamp,
)
    ensures
        started(dry_run, items, total_tasks, at).stats.created == 0,
        started(dry_run, items, total_tasks, at).stats.updated == 0,
        started(dry_run, items, total_tasks, at).stats.deleted == 0,
        started(dry_run, items, total_tasks, at).stats.skipped == 0,
        started(dry_run, items, total_tasks, at).stats.errors.len() == 0,
        started(dry_run, items, total_tasks, at).dry_run == dry_run,
{
}

/// Idempotence. A run over the changes since a snapshot of the same tasks
/// has no work: no task is to be written and none is gone. So it ends as it
/// started, with nothing created, whatever the remote items are and whatever
/// the remote side would have answered.
pub proof fn lemma_unchanged_tasks_create_nothing(
    tasks: Seq<TaskView>,
    dry_run: bool,
    items: Seq<ProjectItemView>,
    at: Timestamp,
    state: SyncStateView,
    outcomes: Seq<StepOutcomeView>,
    times: Seq<Timestamp>,
)
    ensures
        ({
            let changes = snapshot_changes(snapshot_pairs(tasks), snapshot_pairs(tasks), tasks);
            let work = tasks_at(tasks, work_of(tasks, changes));
            let run = started(dry_run, items, tasks.len(), at);
            &&& work.len() == 0
            &&& removed_of(changes).len() == 0
            &&& steps(run, state, work, outcomes, times) == (run, state)
            &&& steps(run, state, work, outcomes, times).0.stats.created == 0
        }),
{
    lemma_unchanged_tasks_have_no_changes(tasks);
}

/// Idempotence of a full run. Where every task has its item in the index, as
/// it has once a run has written the identity fields, a run over all of the
/// tasks creates nothing, whatever comes of its updates.
pub proof fn lemma_indexed_tasks_create_nothing(
    run: RunView,
    state: SyncStateView,
    tasks: Seq<TaskView>,
    outcomes: Seq<StepOutcomeView>,
    times: Seq<Timestamp>,
)
    requires
        distinct_keys(run.id_index),
        forall|i: int| 0 <= i < tasks.len() ==> has_key(run.id_index, (#[trigger] tasks[i]).id),
    ensures
        steps(run, state, tasks, outcomes, times).0.stats.created == run.stats.created,
        steps(run, state, tasks, outcomes, times).0.id_index == run.id_index,
        steps(run, state, tasks, outcomes, times).0.dry_run == run.dry_run,
    decreases tasks.len(),
{
    if tasks.len() > 0 && outcomes.len() == tasks.len() && times.len() == tasks.len() {
        let rest = tasks.drop_last();
        assert forall|i: int| 0 <= i < rest.len() implies has_key(
            run.id_index,
            (#[trigger] rest[i]).id,
        ) by {
            assert(rest[i] == tasks[i]);
        }
        lemma_indexed_tasks_create_nothing(
            run,
            state,
            rest,
            outcomes.drop_last(),
            times.drop_last(),
        );
        assert(has_key(run.id_index, tasks[tasks.len() - 1].id));
    }
}

/// Duplicate avoidance. In a run that is no dry run, a task without item in
/// the index of ids is not created where exactly one remote item has its
/// title and is the item of no task yet: that item is updated. Once the
/// update went through, one more update is counted and no creation, and the
/// index holds the item under the id of the task: for the rest of the run it
/// is the item of that one, and the lost item of no other.
pub proof fn lemma_duplicate_is_updated(
    run: RunView,
    state: SyncStateView,
    t: TaskView,
    at: Timestamp,
)
    requires
        !run.dry_run,
        distinct_keys(run.id_index),
        !has_key(run.id_index, t.id),
        candidates(run, t).len() == 1,
    ensures
        ({
            let item = candidates(run, t)[0];
            let after = step(run, state, t, StepOutcomeView::Updated, at).0;
            &&& decide(run, t) == TaskActionView::UpdateDuplicate(item)
            &&& after.stats.updated == run.stats.updated + 1
            &&& after.stats.created == run.stats.created
            &&& after.stats.deleted == run.stats.deleted
            &&& after.stats.skipped == run.stats.skipped
            &&& after.stats.errors == run.stats.errors
            &&& lookup(after.id_index, t.id) == Some(item)
            &&& decide(after, t) == TaskActionView::Update(item)
            &&& is_mapped(after.id_index, item.id)
        }),
{
    let item = candidates(run, t)[0];
    let after = step(run, state, t, StepOutcomeView::Updated, at).0;
    lemma_put(run.id_index, t.id, item);
    crate::strmap::lemma_key_index(after.id_index, t.id);
    let i = crate::strmap::key_index(after.id_index, t.id)->0;
    assert(after.id_index[i].1.id == item.id);
}

/// A remote item that names no task, alone with its title, is found by that
/// title: the index of ids lacks it, and it is the one candidate for a task
/// of that title.
pub proof fn lemma_single_untracked_item(item: ProjectItemView)
    requires
        crate::sync::tm_id_of(item.field_values) is None,
    ensures
        index_by_id(seq![item]).len() == 0,
        titled(index_by_title(seq![item]), item.title) == seq![item],
        untracked(index_by_id(seq![item]), titled(index_by_title(seq![item]), item.title)) == seq![
            item,
        ],
{
    let items = seq![item];
    assert(items.drop_last() =~= Seq::<ProjectItemView>::empty());
    assert(items.last() == item);
    assert(index_by_id(items.drop_last()) =~= Seq::<(Seq<char>, ProjectItemView)>::empty());
    assert(index_by_id(items) == index_by_id(items.drop_last()));
    let rest = index_by_title(items.drop_last());
    assert(rest =~= Seq::<(Seq<char>, Seq<ProjectItemView>)>::empty());
    crate::strmap::lemma_key_index(rest, item.title);
    lemma_put(rest, item.title, titled(rest, item.title).push(item));
    assert(titled(rest, item.title).push(item) =~= seq![item]);
    assert(untracked(index_by_id(items), items.drop_last()) =~= Seq::<ProjectItemView>::empty());
    assert(untracked(index_by_id(items), items) =~= seq![item]);
}

/// Dry run. In a dry run every task is skipped and nothing else happens:
/// after the steps for any list of tasks the run has that many more tasks
/// skipped, nothing more created, updated or deleted, no new error, the same
/// indexes, and the state is as it was.
pub proof fn lemma_dry_run_only_skips(
    run: RunView,
    state: SyncStateView,
    tasks: Seq<TaskView>,
    outcomes: Seq<StepOutcomeView>,
    times: Seq<Timestamp>,
)
    requires
        run.dry_run,
        outcomes.len() == tasks.len(),
        times.len() == tasks.len(),
        all_skipped(outcomes),
    ensures
        ({
            let after = steps(run, state, tasks, outcomes, times);
            &&& after.1 == state
            &&& after.0.stats.skipped == run.stats.skipped + tasks.len()
            &&& after.0.stats.created == run.stats.created
            &&& after.0.stats.updated == run.stats.updated
            &&& after.0.stats.deleted == run.stats.deleted
            &&& after.0.stats.errors == run.stats.errors
            &&& after.0.id_index == run.id_index
            &&& after.0.title_index == run.title_index
            &&& after.0.dry_run
        }),
    decreases tasks.len(),
{
    if tasks.len() > 0 {
        assert(all_skipped(outcomes.drop_last())) by {
            assert forall|i: int| 0 <= i < outcomes.drop_last().len() implies (
            #[trigger] outcomes.drop_last()[i]) == StepOutcomeView::Skipped by {
                assert(outcomes.drop_last()[i] == outcomes[i]);
            }
        }
        lemma_dry_run_only_skips(
            run,
            state,
            tasks.drop_last(),
            outcomes.drop_last(),
            times.drop_last(),
        );
        assert(outcomes.last() == outcomes[outcomes.len() - 1]);
    }
}

/// In a dry run every task is to be skipped, whatever the remote items are.
pub proof fn lemma_dry_run_decides_skip(run: RunView, t: TaskView)
    requires
        run.dry_run,
    ensures
        decide(run, t) == TaskActionView::Skip,
{
}

/// A dry run sends no deletion and leaves the state alone: for a task that is
/// gone and for an orphan no item is to be deleted, and the state is as it
/// was after the step. An orphan is not counted either; a task that is gone
/// is counted as deleted where it has an item in the index.
pub proof fn lemma_dry_run_deletes_nothing(
    run: RunView,
    state: SyncStateView,
    id: Seq<char>,
    outcome: DeletionOutcomeView,
    at: Timestamp,
)
    requires
        run.dry_run,
    ensures
        deletion_target(run, id) is None,
        removal_step(run, state, id, outcome, at).1 == state,
        orphan_step(run, state, id, outcome, at) == (run, state),
        removal_step(run, state, id, outcome, at).0.stats.created == run.stats.created,
        removal_step(run, state, id, outcome, at).0.stats.updated == run.stats.updated,
        removal_step(run, state, id, outcome, at).0.stats.skipped == run.stats.skipped,
        !has_key(run.id_index, id) ==> removal_step(run, state, id, outcome, at).0 == run,
{
}

/// The index of ids of a list of items has no key twice.
pub proof fn lemma_index_by_id_distinct(items: Seq<ProjectItemView>)
    ensures
        distinct_keys(index_by_id(items)),
    decreases items.len(),
{
    if items.len() > 0 {
        lemma_index_by_id_distinct(items.drop_last());
        match crate::sync::tm_id_of(items.last().field_values) {
            Some(id) => {
                lemma_put(index_by_id(items.drop_last()), id, items.last());
            },
            None => {},
        }
    }
}

/// The index of titles of a list of items has no key twice.
pub proof fn lemma_index_by_title_distinct(items: Seq<ProjectItemView>)
    ensures
        distinct_keys(index_by_title(items)),
    decreases items.len(),
{
    if items.len() > 0 {
        let rest = index_by_title(items.drop_last());
        lemma_index_by_title_distinct(items.drop_last());
        lemma_put(rest, items.last().title, titled(rest, items.last().title).push(items.last()));
    }
}

/// A run is well indexed from its start, and every step keeps it so: for a
/// task, for a task that is gone, and for an orphan.
pub proof fn lemma_run_stays_well_indexed(
    dry_run: bool,
    items: Seq<ProjectItemView>,
    total_tasks: nat,
    run: RunView,
    state: SyncStateView,
    t: TaskView,
    outcome: StepOutcomeView,
    id: Seq<char>,
    deletion: DeletionOutcomeView,
    at: Timestamp,
)
    ensures
        well_indexed(started(dry_run, items, total_tasks, at)),
        well_indexed(run) ==> well_indexed(step(run, state, t, outcome, at).0),
        well_indexed(run) ==> well_indexed(removal_step(run, state, id, deletion, at).0),
        well_indexed(run) ==> well_indexed(orphan_step(run, state, id, deletion, at).0),
{
    lemma_index_by_id_distinct(items);
    lemma_index_by_title_distinct(items);
    if well_indexed(run) {
        match decide(run, t) {
            TaskActionView::UpdateDuplicate(item) => {
                lemma_put(run.id_index, t.id, item);
            },
            _ => {},
        }
    }
}

/// A dry run asks for nothing that changes the remote side: no field is to
/// be created, whatever the project lacks; every task is to be skipped, so
/// that no item is created or updated and no field value or choice is
/// written; and no item is to be deleted, for a task that is gone as for an
/// orphan.
pub proof fn lemma_dry_run_sends_nothing(
    run: RunView,
    t: TaskView,
    id: Seq<char>,
    required: Seq<RequiredField>,
    existing: Seq<CustomFieldView>,
)
    requires
        run.dry_run,
    ensures
        creatable_fields(run.dry_run, required, existing).len() == 0,
        decide(run, t) == TaskActionView::Skip,
        deletion_target(run, id) is None,
{
}

} // verus!
