//! What has been synchronised: which task is which remote item, and what was
//! known of the task when it was last written.

use crate::clock::{now, Timestamp};
use crate::error::TaskMasterError;
use crate::models::task::{has_id, has_task_with_id, Task, TaskView};
use crate::strmap::{
    distinct, distinct_keys, lookup, put, with_member, without, without_member, StrMap, StrSet,
};
use crate::text::{clone_opt, owned};
use vstd::prelude::*;

verus! {

/// What is kept of a synchronised task.
#[derive(Debug)]
pub struct TaskMetadata {
    pub github_item_id: String,
    pub draft_issue_id: Option<String>,
    pub title: String,
    pub status: String,
    pub last_updated: Timestamp,
}

/// The metadata of a task, as plain values.
pub struct TaskMetadataView {
    pub github_item_id: Seq<char>,
    pub draft_issue_id: Option<Seq<char>>,
    pub title: Seq<char>,
    pub status: Seq<char>,
    pub last_updated: Timestamp,
}

impl View for TaskMetadata {
    type V = TaskMetadataView;

    open spec fn view(&self) -> TaskMetadataView {
        TaskMetadataView {
            github_item_id: self.github_item_id@,
            draft_issue_id: self.draft_issue_id.deep_view(),
            title: self.title@,
            status: self.status@,
            last_updated: self.last_updated,
        }
    }
}

impl DeepView for TaskMetadata {
    type V = TaskMetadataView;

    open spec fn deep_view(&self) -> TaskMetadataView {
        self@
    }
}

impl Clone for TaskMetadata {
    fn clone(&self) -> (r: TaskMetadata)
        ensures
            r@ == self@,
    {
        TaskMetadata {
            github_item_id: self.github_item_id.clone(),
            draft_issue_id: clone_opt(&self.draft_issue_id),
            title: self.title.clone(),
            status: self.status.clone(),
            last_updated: self.last_updated,
        }
    }
}

/// The synchronisation state of one tag.
#[derive(Debug)]
pub struct SyncState {
    pub task_mappings: StrMap<String>,
    pub synced_tasks: StrSet,
    pub task_metadata: StrMap<TaskMetadata>,
    pub last_sync: Option<Timestamp>,
}

/// The synchronisation state, as plain values.
pub struct SyncStateView {
    /// Task id and remote item id; no task id occurs twice.
    pub task_mappings: Seq<(Seq<char>, Seq<char>)>,
    /// The ids of the synchronised tasks, each once.
    pub synced_tasks: Seq<Seq<char>>,
    /// Task id and metadata; no task id occurs twice.
    pub task_metadata: Seq<(Seq<char>, TaskMetadataView)>,
    pub last_sync: Option<Timestamp>,
}

impl View for SyncState {
    type V = SyncStateView;

    open spec fn view(&self) -> SyncStateView {
        SyncStateView {
            task_mappings: self.task_mappings.pairs(),
            synced_tasks: self.synced_tasks.members(),
            task_metadata: self.task_metadata.pairs(),
            last_sync: self.last_sync,
        }
    }
}

impl Default for SyncState {
    fn default() -> (s: SyncState)
        ensures
            s@ == empty_state(),
    {
        SyncState {
            task_mappings: StrMap::new(),
            synced_tasks: StrSet::new(),
            task_metadata: StrMap::new(),
            last_sync: None,
        }
    }
}

/// The state in which nothing is synchronised.
pub open spec fn empty_state() -> SyncStateView {
    SyncStateView {
        task_mappings: Seq::empty(),
        synced_tasks: Seq::empty(),
        task_metadata: Seq::empty(),
        last_sync: None,
    }
}

/// The state after the task `id` was recorded as the remote item `item` at
/// the time `at`.
pub open spec fn recorded(
    s: SyncStateView,
    id: Seq<char>,
    item: Seq<char>,
    draft: Option<Seq<char>>,
    title: Seq<char>,
    status: Seq<char>,
    at: Timestamp,
) -> SyncStateView {
    SyncStateView {
        task_mappings: put(s.task_mappings, id, item),
        synced_tasks: with_member(s.synced_tasks, id),
        task_metadata: put(
            s.task_metadata,
            id,
            TaskMetadataView {
                github_item_id: item,
                draft_issue_id: draft,
                title: title,
                status: status,
                last_updated: at,
            },
        ),
        last_sync: Some(at),
    }
}

/// The state after the metadata of the task `id` was brought up to date at
/// the time `at`: title, status and time change where the task has metadata.
pub open spec fn metadata_updated(
    s: SyncStateView,
    id: Seq<char>,
    title: Seq<char>,
    status: Seq<char>,
    at: Timestamp,
) -> SyncStateView {
    SyncStateView {
        task_metadata: match lookup(s.task_metadata, id) {
            Some(m) => put(
                s.task_metadata,
                id,
                TaskMetadataView { title: title, status: status, last_updated: at, ..m },
            ),
            None => s.task_metadata,
        },
        last_sync: Some(at),
        ..s
    }
}

/// The state after the task `id` was taken out at the time `at`.
pub open spec fn removed(s: SyncStateView, id: Seq<char>, at: Timestamp) -> SyncStateView {
    SyncStateView {
        task_mappings: without(s.task_mappings, id),
        synced_tasks: without_member(s.synced_tasks, id),
        task_metadata: without(s.task_metadata, id),
        last_sync: Some(at),
    }
}

/// One entry of a batch: task id, remote item id, content id, and the task.
pub type BatchEntry = (String, String, Option<String>, Task);

/// The state after a batch was recorded at the time `at`, entry by entry.
pub open spec fn batch_recorded(
    s: SyncStateView,
    updates: Seq<(Seq<char>, Seq<char>, Option<Seq<char>>, TaskView)>,
    at: Timestamp,
) -> SyncStateView
    decreases updates.len(),
{
    if updates.len() == 0 {
        SyncStateView { last_sync: Some(at), ..s }
    } else {
        let u = updates.last();
        recorded(batch_recorded(s, updates.drop_last(), at), u.0, u.1, u.2, u.3.title, u.3.status, at)
    }
}

/// The synchronised ids that no task of the list has, in their order.
pub open spec fn orphans_of(synced: Seq<Seq<char>>, tasks: Seq<TaskView>) -> Seq<Seq<char>>
    decreases synced.len(),
{
    if synced.len() == 0 {
        Seq::empty()
    } else {
        let rest = orphans_of(synced.drop_last(), tasks);
        if has_id(tasks, synced.last()) {
            rest
        } else {
            rest.push(synced.last())
        }
    }
}

/// Orphan detection. The orphans are the synchronised ids less the ids of the
/// current tasks: an id is an orphan exactly if it is synchronised and no
/// current task has it, and no orphan is named twice.
pub proof fn lemma_orphans_are_the_difference(synced: Seq<Seq<char>>, tasks: Seq<TaskView>)
    requires
        distinct(synced),
    ensures
        forall|id: Seq<char>|
            #![trigger orphans_of(synced, tasks).contains(id)]
            orphans_of(synced, tasks).contains(id) <==> (synced.contains(id) && !has_id(tasks, id)),
        distinct(orphans_of(synced, tasks)),
        orphans_of(synced, tasks).to_set() == synced.to_set().difference(
            Set::new(|id: Seq<char>| has_id(tasks, id)),
        ),
    decreases synced.len(),
{
    let r = orphans_of(synced, tasks);
    if synced.len() > 0 {
        let rest = synced.drop_last();
        let last = synced.last();
        let rr = orphans_of(rest, tasks);
        assert(distinct(rest)) by {
            assert forall|i: int, j: int| 0 <= i < j < rest.len() implies #[trigger] rest[i]
                != #[trigger] rest[j] by {
                assert(rest[i] == synced[i]);
                assert(rest[j] == synced[j]);
            }
        }
        lemma_orphans_are_the_difference(rest, tasks);
        assert(!rest.contains(last)) by {
            if rest.contains(last) {
                let i = choose|i: int| 0 <= i < rest.len() && rest[i] == last;
                assert(synced[i] == rest[i]);
                assert(synced[i] != synced[synced.len() - 1]);
            }
        }
        assert forall|id: Seq<char>| #![trigger r.contains(id)] r.contains(id) <==> (
        synced.contains(id) && !has_id(tasks, id)) by {
            if synced.contains(id) {
                let i = choose|i: int| 0 <= i < synced.len() && synced[i] == id;
                if i < rest.len() {
                    assert(rest[i] == id);
                }
            }
            if rest.contains(id) {
                let i = choose|i: int| 0 <= i < rest.len() && rest[i] == id;
                assert(synced[i] == id);
            }
            assert(synced[synced.len() - 1] == last);
            if rr.contains(id) {
                let i = choose|i: int| 0 <= i < rr.len() && rr[i] == id;
                if !has_id(tasks, last) {
                    assert(r[i] == id);
                }
            }
            if r.contains(id) {
                let i = choose|i: int| 0 <= i < r.len() && r[i] == id;
                if i < rr.len() {
                    assert(rr[i] == id);
                }
            }
            if !has_id(tasks, last) {
                assert(r[r.len() - 1] == last);
            }
        }
        assert(distinct(r)) by {
            assert forall|i: int, j: int| 0 <= i < j < r.len() implies #[trigger] r[i]
                != #[trigger] r[j] by {
                assert(r[i] == rr[i]);
                if j < rr.len() {
                    assert(r[j] == rr[j]);
                } else {
                    assert(rr.contains(rr[i]));
                }
            }
        }
    }
    assert(r.to_set() =~= synced.to_set().difference(Set::new(|id: Seq<char>| has_id(tasks, id))))
        by {
        assert forall|id: Seq<char>| r.to_set().contains(id) <==> synced.to_set().difference(
            Set::new(|id: Seq<char>| has_id(tasks, id)),
        ).contains(id) by {
            assert(r.contains(id) <==> (synced.contains(id) && !has_id(tasks, id)));
        }
    }
}

/// How many tasks are synchronised, and when the state last changed.
#[derive(Clone, Copy, Debug)]
pub struct SyncStats {
    pub total_synced: usize,
    pub last_sync: Option<Timestamp>,
}

/// The keeper of the synchronisation state of one tag, with the place where
/// the state is stored.
#[derive(Debug)]
pub struct StateTracker {
    state: SyncState,
    state_file: String,
}

impl View for StateTracker {
    type V = SyncStateView;

    closed spec fn view(&self) -> SyncStateView {
        self.state@
    }
}

impl StateTracker {
    /// The place where the state is stored.
    pub closed spec fn file(&self) -> Seq<char> {
        self.state_file@
    }

    /// A tracker for the state kept in `state_file`: with the state that was
    /// read from it, or with the empty state where there was none yet.
    pub fn new(state_file: &str, loaded: Option<SyncState>) -> (t: StateTracker)
        ensures
            t.file() == state_file@,
            t@ == match loaded {
                Some(s) => s@,
                None => empty_state(),
            },
    {
        let state = match loaded {
            Some(s) => s,
            None => SyncState::default(),
        };
        StateTracker { state, state_file: owned(state_file) }
    }

    /// The place where the state is stored.
    pub fn state_file(&self) -> (p: &str)
        ensures
            p@ == self.file(),
    {
        self.state_file.as_str()
    }

    /// The state, as it is to be stored.
    pub fn state(&self) -> (s: &SyncState)
        ensures
            s@ == self@,
    {
        &self.state
    }

    /// Whether the task `tm_id` has been synchronised.
    pub fn is_synced(&self, tm_id: &str) -> (r: bool)
        ensures
            r == self@.synced_tasks.contains(tm_id@),
    {
        self.state.synced_tasks.contains(tm_id)
    }

    /// The remote item of the task `tm_id`, if it has one. No task has two.
    pub fn get_github_item_id(&self, tm_id: &str) -> (r: Option<String>)
        ensures
            r.deep_view() == lookup(self@.task_mappings, tm_id@),
            distinct_keys(self@.task_mappings),
    {
        match self.state.task_mappings.get(tm_id) {
            Some(s) => Some(s.clone()),
            None => None,
        }
    }

    /// The metadata of the task `tm_id`, if it has any.
    pub fn get_task_metadata(&self, tm_id: &str) -> (r: Option<TaskMetadata>)
        ensures
            r.deep_view() == lookup(self@.task_metadata, tm_id@),
    {
        match self.state.task_metadata.get(tm_id) {
            Some(m) => Some(m.clone()),
            None => None,
        }
    }

    /// Records at the time `at` that the task `tm_id` is the remote item
    /// `github_item_id`.
    pub fn record_synced_at(
        &mut self,
        tm_id: &str,
        github_item_id: &str,
        draft_issue_id: Option<&str>,
        task: &Task,
        at: Timestamp,
    ) -> (r: Result<(), TaskMasterError>)
        ensures
            r is Ok,
            final(self).file() == old(self).file(),
            final(self)@ == recorded(
                old(self)@,
                tm_id@,
                github_item_id@,
                draft_issue_id.deep_view(),
                task@.title,
                task@.status,
                at,
            ),
    {
        self.state.task_mappings.insert(owned(tm_id), owned(github_item_id));
        self.state.synced_tasks.insert(owned(tm_id));
        let draft = match draft_issue_id {
            Some(d) => Some(owned(d)),
            None => None,
        };
        let metadata = TaskMetadata {
            github_item_id: owned(github_item_id),
            draft_issue_id: draft,
            title: task.title.clone(),
            status: task.status.clone(),
            last_updated: at,
        };
        self.state.task_metadata.insert(owned(tm_id), metadata);
        self.state.last_sync = Some(at);
        Ok(())
    }

    /// Records now that the task `tm_id` is the remote item `github_item_id`.
    /// The state becomes what `record_synced_at` makes of it for the time
    /// that the clock gave.
    pub fn record_synced(
        &mut self,
        tm_id: &str,
        github_item_id: &str,
        draft_issue_id: Option<&str>,
        task: &Task,
    ) -> (r: Result<(), TaskMasterError>)
        ensures
            r is Ok,
            final(self).file() == old(self).file(),
            exists|at: Timestamp|
                final(self)@ == recorded(
                    old(self)@,
                    tm_id@,
                    github_item_id@,
                    draft_issue_id.deep_view(),
                    task@.title,
                    task@.status,
                    at,
                ),
    {
        let at = now();
        self.record_synced_at(tm_id, github_item_id, draft_issue_id, task, at)
    }

    /// Brings the metadata of the task `tm_id` up to date at the time `at`.
    pub fn update_task_metadata_at(&mut self, tm_id: &str, task: &Task, at: Timestamp) -> (r:
        Result<(), TaskMasterError>)
        ensures
            r is Ok,
            final(self).file() == old(self).file(),
            final(self)@ == metadata_updated(old(self)@, tm_id@, task@.title, task@.status, at),
    {
        let updated = match self.state.task_metadata.get(tm_id) {
            Some(m) => Some(
                TaskMetadata {
                    github_item_id: m.github_item_id.clone(),
                    draft_issue_id: clone_opt(&m.draft_issue_id),
                    title: task.title.clone(),
                    status: task.status.clone(),
                    last_updated: at,
                },
            ),
            None => None,
        };
        match updated {
            Some(m) => {
                self.state.task_metadata.insert(owned(tm_id), m);
            },
            None => {},
        }
        self.state.last_sync = Some(at);
        Ok(())
    }

    /// Brings the metadata of the task `tm_id` up to date now.
    pub fn update_task_metadata(&mut self, tm_id: &str, task: &Task) -> (r: Result<
        (),
        TaskMasterError,
    >)
        ensures
            r is Ok,
            final(self).file() == old(self).file(),
            exists|at: Timestamp|
                final(self)@ == metadata_updated(
                    old(self)@,
                    tm_id@,
                    task@.title,
                    task@.status,
                    at,
                ),
    {
        let at = now();
        self.update_task_metadata_at(tm_id, task, at)
    }

    /// Takes the task `tm_id` out of the state at the time `at`.
    pub fn remove_task_at(&mut self, tm_id: &str, at: Timestamp) -> (r: Result<
        (),
        TaskMasterError,
    >)
        ensures
            r is Ok,
            final(self).file() == old(self).file(),
            final(self)@ == removed(old(self)@, tm_id@, at),
    {
        let _ = self.state.task_mappings.remove(tm_id);
        let _ = self.state.synced_tasks.remove(tm_id);
        let _ = self.state.task_metadata.remove(tm_id);
        self.state.last_sync = Some(at);
        Ok(())
    }

    /// Takes the task `tm_id` out of the state now.
    pub fn remove_task(&mut self, tm_id: &str) -> (r: Result<(), TaskMasterError>)
        ensures
            r is Ok,
            final(self).file() == old(self).file(),
            exists|at: Timestamp| final(self)@ == removed(old(self)@, tm_id@, at),
    {
        let at = now();
        self.remove_task_at(tm_id, at)
    }

    /// The synchronised ids that no current task has, in the order in which
    /// they were first synchronised.
    pub fn find_orphaned_items(&self, current_tasks: &[Task]) -> (r: Vec<String>)
        ensures
            r.deep_view() == orphans_of(self@.synced_tasks, current_tasks.deep_view()),
    {
        let mut r: Vec<String> = Vec::new();
        let n = self.state.synced_tasks.len();
        let ghost synced = self@.synced_tasks;
        let ghost tasks = current_tasks.deep_view();
        let mut i: usize = 0;
        assert(synced.subrange(0, 0) =~= Seq::<Seq<char>>::empty());
        assert(r.deep_view() =~= Seq::<Seq<char>>::empty());
        while i < n
            invariant
                i <= n,
                n == synced.len(),
                synced == self@.synced_tasks,
                tasks == current_tasks.deep_view(),
                r.deep_view() == orphans_of(synced.subrange(0, i as int), tasks),
            decreases n - i,
        {
            let id = self.state.synced_tasks.member_at(i);
            let ghost before = r.deep_view();
            proof {
                assert(synced.subrange(0, i + 1).drop_last() =~= synced.subrange(0, i as int));
                assert(synced.subrange(0, i + 1).last() == synced[i as int]);
            }
            if !has_task_with_id(current_tasks, id.as_str()) {
                r.push(id.clone());
                assert(r.deep_view() =~= before.push(id@));
            }
            i = i + 1;
        }
        assert(synced.subrange(0, i as int) =~= synced);
        r
    }

    /// The ids of the synchronised tasks, in the order in which they were
    /// first synchronised.
    pub fn get_synced_ids(&self) -> (r: Vec<String>)
        ensures
            r.deep_view() == self@.synced_tasks,
    {
        let mut r: Vec<String> = Vec::new();
        let n = self.state.synced_tasks.len();
        let mut i: usize = 0;
        while i < n
            invariant
                i <= n,
                n == self@.synced_tasks.len(),
                r@.len() == i,
                forall|j: int| 0 <= j < i ==> r@[j]@ == self@.synced_tasks[j],
            decreases n - i,
        {
            r.push(self.state.synced_tasks.member_at(i).clone());
            i = i + 1;
        }
        assert(r.deep_view() =~= self@.synced_tasks);
        r
    }

    /// How many tasks are synchronised, and when the state last changed.
    pub fn get_stats(&self) -> (r: SyncStats)
        ensures
            r.total_synced == self@.synced_tasks.len(),
            r.last_sync == self@.last_sync,
    {
        SyncStats { total_synced: self.state.synced_tasks.len(), last_sync: self.state.last_sync }
    }

    /// Forgets everything.
    pub fn clear(&mut self) -> (r: Result<(), TaskMasterError>)
        ensures
            r is Ok,
            final(self).file() == old(self).file(),
            final(self)@ == empty_state(),
    {
        self.state = SyncState::default();
        Ok(())
    }

    /// Records a batch at the time `at`, entry by entry.
    pub fn batch_record_synced_at(&mut self, updates: Vec<BatchEntry>, at: Timestamp) -> (r:
        Result<(), TaskMasterError>)
        ensures
            r is Ok,
            final(self).file() == old(self).file(),
            final(self)@ == batch_recorded(old(self)@, updates.deep_view(), at),
    {
        let ghost start = self@;
        let ghost all = updates.deep_view();
        self.state.last_sync = Some(at);
        let mut i: usize = 0;
        assert(all.subrange(0, 0) =~= Seq::<
            (Seq<char>, Seq<char>, Option<Seq<char>>, TaskView),
        >::empty());
        while i < updates.len()
            invariant
                i <= updates.len(),
                all == updates.deep_view(),
                self.file() == old(self).file(),
                self@ == batch_recorded(start, all.subrange(0, i as int), at),
            decreases updates.len() - i,
        {
            proof {
                assert(all.subrange(0, i + 1).drop_last() =~= all.subrange(0, i as int));
                assert(all.subrange(0, i + 1).last() == all[i as int]);
            }
            let u = &updates[i];
            let draft: Option<&str> = match &u.2 {
                Some(d) => Some(d.as_str()),
                None => None,
            };
            let _ = self.record_synced_at(u.0.as_str(), u.1.as_str(), draft, &u.3, at);
            i = i + 1;
        }
        assert(all.subrange(0, i as int) =~= all);
        Ok(())
    }

    /// Records a batch now, entry by entry.
    pub fn batch_record_synced(&mut self, updates: Vec<BatchEntry>) -> (r: Result<
        (),
        TaskMasterError,
    >)
        ensures
            r is Ok,
            final(self).file() == old(self).file(),
            exists|at: Timestamp|
                final(self)@ == batch_recorded(old(self)@, updates.deep_view(), at),
    {
        let at = now();
        self.batch_record_synced_at(updates, at)
    }
}

} // verus!
