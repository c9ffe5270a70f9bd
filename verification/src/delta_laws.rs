//! What holds of change detection for every pair of task lists.

use crate::delta::{
    changed_ids, depends_on_any, impacted_ids, with_dependents, change_of_current, change_of_previous, changes_of_current, changes_of_previous,
    content_hash_of, fingerprint_of, snapshot_changes, snapshot_pairs, task_with_id,
    TaskChangeView, TaskFingerprintView,
};
use crate::models::task::{has_id, TaskView};
use crate::strmap::{
    distinct, distinct_keys, has_key, key_index, lemma_key_index, lemma_put, lookup, with_member,
};
use vstd::prelude::*;

verus! {

/// The content hash is formed from description, details, test strategy and
/// the number of subtasks alone: two tasks that agree in these four have the
/// same content hash, however they differ in id, title, status, priority,
/// assignee or dependencies.
pub proof fn lemma_content_hash_stable(a: TaskView, b: TaskView)
    requires
        a.description == b.description,
        a.details == b.details,
        a.test_strategy == b.test_strategy,
        a.subtasks.len() == b.subtasks.len(),
    ensures
        content_hash_of(a) == content_hash_of(b),
{
}

/// Title, status, priority, assignee and dependencies are kept in the
/// fingerprint beside the content hash: a change to one of them changes the
/// fingerprint and leaves the content hash as it was.
pub proof fn lemma_fingerprint_tracks_other_fields(a: TaskView, b: TaskView)
    requires
        a.description == b.description,
        a.details == b.details,
        a.test_strategy == b.test_strategy,
        a.subtasks.len() == b.subtasks.len(),
        a.title != b.title || a.status != b.status || a.priority != b.priority || a.assignee
            != b.assignee || a.dependencies != b.dependencies,
    ensures
        fingerprint_of(a).content_hash == fingerprint_of(b).content_hash,
        fingerprint_of(a) != fingerprint_of(b),
{
}

/// `task_with_id` finds a task exactly where one has the id, and the task it
/// finds has the id.
pub proof fn lemma_task_with_id(tasks: Seq<TaskView>, id: Seq<char>)
    ensures
        task_with_id(tasks, id) is Some <==> has_id(tasks, id),
        task_with_id(tasks, id) is Some ==> task_with_id(tasks, id)->0.id == id,
    decreases tasks.len(),
{
    if tasks.len() > 0 {
        let rest = tasks.drop_last();
        lemma_task_with_id(rest, id);
        if tasks.last().id == id {
            assert(tasks[tasks.len() - 1].id == id);
        } else {
            if has_id(tasks, id) {
                let k = choose|k: int| 0 <= k < tasks.len() && (#[trigger] tasks[k]).id == id;
                assert(rest[k] == tasks[k]);
            }
            if has_id(rest, id) {
                let k = choose|k: int| 0 <= k < rest.len() && (#[trigger] rest[k]).id == id;
                assert(rest[k] == tasks[k]);
            }
        }
    }
}

/// A snapshot has a key for exactly the ids of its tasks, each once, and holds
/// for each the fingerprint of the last task with that id.
pub proof fn lemma_snapshot_pairs(tasks: Seq<TaskView>, id: Seq<char>)
    ensures
        distinct_keys(snapshot_pairs(tasks)),
        has_key(snapshot_pairs(tasks), id) <==> has_id(tasks, id),
        has_id(tasks, id) ==> lookup(snapshot_pairs(tasks), id) == Some(
            fingerprint_of(task_with_id(tasks, id)->0),
        ),
    decreases tasks.len(),
{
    if tasks.len() > 0 {
        let rest = tasks.drop_last();
        lemma_snapshot_pairs(rest, id);
        lemma_put(snapshot_pairs(rest), tasks.last().id, fingerprint_of(tasks.last()));
        lemma_task_with_id(tasks, id);
        lemma_task_with_id(rest, id);
        if tasks.last().id == id {
            assert(tasks[tasks.len() - 1].id == id);
        }
    } else {
        lemma_key_index(snapshot_pairs(tasks), id);
    }
}

/// How keys and values of a sequence of pairs follow from those of all but
/// its last pair.
pub proof fn lemma_lookup_step<V>(p: Seq<(Seq<char>, V)>, id: Seq<char>)
    requires
        p.len() > 0,
        distinct_keys(p),
    ensures
        distinct_keys(p.drop_last()),
        !has_key(p.drop_last(), p.last().0),
        has_key(p, id) <==> (has_key(p.drop_last(), id) || id == p.last().0),
        has_key(p.drop_last(), id) ==> lookup(p, id) == lookup(p.drop_last(), id),
        id == p.last().0 ==> lookup(p, id) == Some(p.last().1),
{
    let rest = p.drop_last();
    lemma_key_index(rest, id);
    lemma_key_index(rest, p.last().0);
    lemma_key_index(p, id);
    assert forall|i: int, j: int| 0 <= i < j < rest.len() implies (#[trigger] rest[i]).0 != (
    #[trigger] rest[j]).0 by {
        assert(rest[i] == p[i]);
        assert(rest[j] == p[j]);
    }
    if let Some(i) = key_index(rest, p.last().0) {
        assert(rest[i] == p[i]);
        assert(p[i].0 != p[p.len() - 1].0);
    }
    if let Some(i) = key_index(rest, id) {
        assert(rest[i] == p[i]);
    }
}

/// The changes found for the previous snapshot: each is what became of one of
/// its keys, every key that changed or went has its change, and none has two.
pub proof fn lemma_changes_of_previous(
    prev: Seq<(Seq<char>, TaskFingerprintView)>,
    cur: Seq<(Seq<char>, TaskFingerprintView)>,
    tasks: Seq<TaskView>,
)
    requires
        distinct_keys(prev),
    ensures
        ({
            let r = changes_of_previous(prev, cur, tasks);
            &&& forall|i: int|
                0 <= i < r.len() ==> has_key(prev, (#[trigger] r[i]).task_id())
                    && change_of_previous(
                    r[i].task_id(),
                    lookup(prev, r[i].task_id())->0,
                    cur,
                    tasks,
                ) == Some(r[i])
            &&& forall|id: Seq<char>|
                has_key(prev, id) && (#[trigger] change_of_previous(
                    id,
                    lookup(prev, id)->0,
                    cur,
                    tasks,
                )) is Some ==> exists|i: int| 0 <= i < r.len() && (#[trigger] r[i]).task_id() == id
            &&& forall|i: int, j: int|
                0 <= i < j < r.len() ==> (#[trigger] r[i]).task_id() != (#[trigger] r[j]).task_id()
        }),
    decreases prev.len(),
{
    let r = changes_of_previous(prev, cur, tasks);
    if prev.len() > 0 {
        let rest = prev.drop_last();
        let last = prev.last();
        let rr = changes_of_previous(rest, cur, tasks);
        lemma_lookup_step(prev, last.0);
        lemma_changes_of_previous(rest, cur, tasks);
        lemma_task_with_id(tasks, last.0);
        let c = change_of_previous(last.0, last.1, cur, tasks);
        assert forall|i: int| 0 <= i < r.len() implies has_key(prev, (#[trigger] r[i]).task_id())
            && change_of_previous(r[i].task_id(), lookup(prev, r[i].task_id())->0, cur, tasks)
            == Some(r[i]) by {
            if i < rr.len() {
                assert(r[i] == rr[i]);
                lemma_lookup_step(prev, rr[i].task_id());
            } else {
                assert(r[i] == c->0);
                assert(r[i].task_id() == last.0);
            }
        }
        assert forall|id: Seq<char>|
            has_key(prev, id) && (#[trigger] change_of_previous(
                id,
                lookup(prev, id)->0,
                cur,
                tasks,
            )) is Some implies exists|i: int|
            0 <= i < r.len() && (#[trigger] r[i]).task_id() == id by {
            lemma_lookup_step(prev, id);
            if has_key(rest, id) {
                let i = choose|i: int| 0 <= i < rr.len() && (#[trigger] rr[i]).task_id() == id;
                assert(r[i] == rr[i]);
            } else {
                assert(id == last.0);
                assert(r[r.len() - 1] == c->0);
                assert(r[r.len() - 1].task_id() == id);
            }
        }
        assert forall|i: int, j: int| 0 <= i < j < r.len() implies (#[trigger] r[i]).task_id() != (
        #[trigger] r[j]).task_id() by {
            assert(r[i] == rr[i]);
            if j < rr.len() {
                assert(r[j] == rr[j]);
            } else {
                assert(r[j] == c->0);
                assert(has_key(rest, rr[i].task_id()));
            }
        }
    }
}

/// The additions found for the current snapshot: each is a key that the
/// previous snapshot lacks, every such key has its addition, and none has two.
pub proof fn lemma_changes_of_current(
    prev: Seq<(Seq<char>, TaskFingerprintView)>,
    cur: Seq<(Seq<char>, TaskFingerprintView)>,
    tasks: Seq<TaskView>,
)
    requires
        distinct_keys(cur),
    ensures
        ({
            let r = changes_of_current(prev, cur, tasks);
            &&& forall|i: int|
                0 <= i < r.len() ==> has_key(cur, (#[trigger] r[i]).task_id())
                    && change_of_current(r[i].task_id(), prev, tasks) == Some(r[i])
            &&& forall|id: Seq<char>|
                has_key(cur, id) && (#[trigger] change_of_current(id, prev, tasks)) is Some
                    ==> exists|i: int| 0 <= i < r.len() && (#[trigger] r[i]).task_id() == id
            &&& forall|i: int, j: int|
                0 <= i < j < r.len() ==> (#[trigger] r[i]).task_id() != (#[trigger] r[j]).task_id()
        }),
    decreases cur.len(),
{
    let r = changes_of_current(prev, cur, tasks);
    if cur.len() > 0 {
        let rest = cur.drop_last();
        let last = cur.last();
        let rr = changes_of_current(prev, rest, tasks);
        lemma_lookup_step(cur, last.0);
        lemma_changes_of_current(prev, rest, tasks);
        lemma_task_with_id(tasks, last.0);
        let c = change_of_current(last.0, prev, tasks);
        assert forall|i: int| 0 <= i < r.len() implies has_key(cur, (#[trigger] r[i]).task_id())
            && change_of_current(r[i].task_id(), prev, tasks) == Some(r[i]) by {
            if i < rr.len() {
                assert(r[i] == rr[i]);
                lemma_lookup_step(cur, rr[i].task_id());
            } else {
                assert(r[i] == c->0);
                assert(r[i].task_id() == last.0);
            }
        }
        assert forall|id: Seq<char>|
            has_key(cur, id) && (#[trigger] change_of_current(id, prev, tasks)) is Some implies exists|
            i: int,
        | 0 <= i < r.len() && (#[trigger] r[i]).task_id() == id by {
            lemma_lookup_step(cur, id);
            if has_key(rest, id) {
                let i = choose|i: int| 0 <= i < rr.len() && (#[trigger] rr[i]).task_id() == id;
                assert(r[i] == rr[i]);
            } else {
                assert(id == last.0);
                assert(r[r.len() - 1] == c->0);
                assert(r[r.len() - 1].task_id() == id);
            }
        }
        assert forall|i: int, j: int| 0 <= i < j < r.len() implies (#[trigger] r[i]).task_id() != (
        #[trigger] r[j]).task_id() by {
            assert(r[i] == rr[i]);
            if j < rr.len() {
                assert(r[j] == rr[j]);
            } else {
                assert(r[j] == c->0);
                assert(has_key(rest, rr[i].task_id()));
            }
        }
    }
}

/// What the difference between the snapshots of two task lists says of one
/// change: an addition is a task of the second list whose id the first lacks,
/// a removal has an id of the first list that the second lacks, and a
/// modification is a task of the second list whose id both have, with
/// fingerprints that differ.
pub open spec fn change_is_due(c: TaskChangeView, first: Seq<TaskView>, second: Seq<TaskView>) -> bool {
    match c {
        TaskChangeView::Added(t) => has_id(second, t.id) && !has_id(first, t.id) && task_with_id(
            second,
            t.id,
        ) == Some(t),
        TaskChangeView::Removed(t) => has_id(first, t.id) && !has_id(second, t.id),
        TaskChangeView::Modified(o, n) => o == n && has_id(first, n.id) && has_id(second, n.id)
            && task_with_id(second, n.id) == Some(n) && fingerprint_of(
            task_with_id(first, n.id)->0,
        ) != fingerprint_of(n),
    }
}

/// Diff correctness. For the snapshots of a first and a second task list, the
/// changes hold an addition for each id that only the second list has, a
/// removal for each id that only the first has, a modification for each id of
/// both whose fingerprints differ (as they do where the content hashes
/// differ), and nothing else: every change is one of these, and no id has two.
pub proof fn lemma_diff_correct(first: Seq<TaskView>, second: Seq<TaskView>)
    ensures
        ({
            let changes = snapshot_changes(snapshot_pairs(first), snapshot_pairs(second), second);
            &&& forall|i: int|
                0 <= i < changes.len() ==> change_is_due(#[trigger] changes[i], first, second)
            &&& forall|id: Seq<char>|
                #![trigger has_id(second, id)]
                has_id(second, id) && !has_id(first, id) ==> exists|i: int|
                    0 <= i < changes.len() && (#[trigger] changes[i]) is Added
                        && changes[i].task_id() == id
            &&& forall|id: Seq<char>|
                #![trigger has_id(first, id)]
                has_id(first, id) && !has_id(second, id) ==> exists|i: int|
                    0 <= i < changes.len() && (#[trigger] changes[i]) is Removed
                        && changes[i].task_id() == id
            &&& forall|id: Seq<char>|
                #![trigger has_id(first, id), has_id(second, id)]
                has_id(first, id) && has_id(second, id) && fingerprint_of(
                    task_with_id(first, id)->0,
                ) != fingerprint_of(task_with_id(second, id)->0) ==> exists|i: int|
                    0 <= i < changes.len() && (#[trigger] changes[i]) is Modified
                        && changes[i].task_id() == id
            &&& forall|id: Seq<char>|
                #![trigger has_id(first, id), has_id(second, id)]
                has_id(first, id) && has_id(second, id) && content_hash_of(
                    task_with_id(first, id)->0,
                ) != content_hash_of(task_with_id(second, id)->0) ==> exists|i: int|
                    0 <= i < changes.len() && (#[trigger] changes[i]) is Modified
                        && changes[i].task_id() == id
            &&& forall|i: int, j: int|
                0 <= i < j < changes.len() ==> (#[trigger] changes[i]).task_id() != (
                #[trigger] changes[j]).task_id()
        }),
{
    let prev = snapshot_pairs(first);
    let cur = snapshot_pairs(second);
    let a = changes_of_previous(prev, cur, second);
    let b = changes_of_current(prev, cur, second);
    let changes = snapshot_changes(prev, cur, second);
    lemma_snapshot_pairs(first, Seq::empty());
    lemma_snapshot_pairs(second, Seq::empty());
    lemma_changes_of_previous(prev, cur, second);
    lemma_changes_of_current(prev, cur, second);
    assert forall|i: int| 0 <= i < changes.len() implies change_is_due(
        #[trigger] changes[i],
        first,
        second,
    ) by {
        let c = changes[i];
        let id = c.task_id();
        lemma_snapshot_pairs(first, id);
        lemma_snapshot_pairs(second, id);
        lemma_task_with_id(second, id);
        lemma_task_with_id(first, id);
        if i < a.len() {
            assert(c == a[i]);
            assert(has_key(prev, a[i].task_id()));
        } else {
            assert(c == b[i - a.len()]);
            assert(has_key(cur, b[i - a.len()].task_id()));
        }
    }
    assert forall|id: Seq<char>|
        #![trigger has_id(second, id)]
        has_id(second, id) && !has_id(first, id) implies exists|i: int|
        0 <= i < changes.len() && (#[trigger] changes[i]) is Added && changes[i].task_id()
            == id by {
        lemma_snapshot_pairs(first, id);
        lemma_snapshot_pairs(second, id);
        lemma_task_with_id(second, id);
        assert(change_of_current(id, prev, second) is Some);
        let k = choose|k: int| 0 <= k < b.len() && (#[trigger] b[k]).task_id() == id;
        assert(changes[a.len() + k] == b[k]);
    }
    assert forall|id: Seq<char>|
        #![trigger has_id(first, id)]
        has_id(first, id) && !has_id(second, id) implies exists|i: int|
        0 <= i < changes.len() && (#[trigger] changes[i]) is Removed && changes[i].task_id()
            == id by {
        lemma_snapshot_pairs(first, id);
        lemma_snapshot_pairs(second, id);
        assert(change_of_previous(id, lookup(prev, id)->0, cur, second) is Some);
        let k = choose|k: int| 0 <= k < a.len() && (#[trigger] a[k]).task_id() == id;
        assert(changes[k] == a[k]);
    }
    assert forall|id: Seq<char>|
        #![trigger has_id(first, id), has_id(second, id)]
        has_id(first, id) && has_id(second, id) && fingerprint_of(task_with_id(first, id)->0)
            != fingerprint_of(task_with_id(second, id)->0) implies exists|i: int|
        0 <= i < changes.len() && (#[trigger] changes[i]) is Modified && changes[i].task_id()
            == id by {
        lemma_snapshot_pairs(first, id);
        lemma_snapshot_pairs(second, id);
        lemma_task_with_id(second, id);
        assert(change_of_previous(id, lookup(prev, id)->0, cur, second) is Some);
        let k = choose|k: int| 0 <= k < a.len() && (#[trigger] a[k]).task_id() == id;
        assert(changes[k] == a[k]);
    }
    assert forall|i: int, j: int| 0 <= i < j < changes.len() implies (
    #[trigger] changes[i]).task_id() != (#[trigger] changes[j]).task_id() by {
        if j < a.len() {
            assert(changes[i] == a[i] && changes[j] == a[j]);
        } else if i >= a.len() {
            assert(changes[i] == b[i - a.len()] && changes[j] == b[j - a.len()]);
        } else {
            assert(changes[i] == a[i] && changes[j] == b[j - a.len()]);
            assert(has_key(prev, a[i].task_id()));
            assert(change_of_current(b[j - a.len()].task_id(), prev, second) is Some);
        }
    }
}

/// Nothing changed means nothing to do: the difference between a snapshot of
/// a task list and a later snapshot of the same list is empty.
pub proof fn lemma_unchanged_tasks_have_no_changes(tasks: Seq<TaskView>)
    ensures
        snapshot_changes(snapshot_pairs(tasks), snapshot_pairs(tasks), tasks).len() == 0,
{
    let changes = snapshot_changes(snapshot_pairs(tasks), snapshot_pairs(tasks), tasks);
    lemma_diff_correct(tasks, tasks);
    if changes.len() > 0 {
        assert(change_is_due(changes[0], tasks, tasks));
    }
}

/// Some change of the list is about the task `id`.
pub open spec fn is_changed(changes: Seq<TaskChangeView>, id: Seq<char>) -> bool {
    exists|i: int| 0 <= i < changes.len() && (#[trigger] changes[i]).task_id() == id
}

/// Some task of the list has the id `id` and depends on one of `changed`.
pub open spec fn has_dependent(tasks: Seq<TaskView>, changed: Seq<Seq<char>>, id: Seq<char>) -> bool {
    exists|k: int|
        0 <= k < tasks.len() && (#[trigger] tasks[k]).id == id && depends_on_any(tasks[k], changed)
}

/// The changed ids are the ids that the changes are about, each once.
pub proof fn lemma_changed_ids(changes: Seq<TaskChangeView>, id: Seq<char>)
    ensures
        changed_ids(changes).contains(id) <==> is_changed(changes, id),
        distinct(changed_ids(changes)),
    decreases changes.len(),
{
    if changes.len() > 0 {
        let rest = changes.drop_last();
        let last = changes.last().task_id();
        lemma_changed_ids(rest, id);
        lemma_changed_ids(rest, last);
        lemma_with_member(changed_ids(rest), last, id);
        if is_changed(rest, id) {
            let i = choose|i: int| 0 <= i < rest.len() && (#[trigger] rest[i]).task_id() == id;
            assert(changes[i] == rest[i]);
        }
        if is_changed(changes, id) {
            let i = choose|i: int|
                0 <= i < changes.len() && (#[trigger] changes[i]).task_id() == id;
            if i < rest.len() {
                assert(rest[i] == changes[i]);
            }
        }
        if last == id {
            assert(changes[changes.len() - 1].task_id() == id);
        }
    }
}

/// What adding a member does to membership and to distinctness.
pub proof fn lemma_with_member(s: Seq<Seq<char>>, k: Seq<char>, id: Seq<char>)
    requires
        distinct(s),
    ensures
        with_member(s, k).contains(id) <==> (s.contains(id) || id == k),
        distinct(with_member(s, k)),
{
    let r = with_member(s, k);
    if !s.contains(k) {
        assert(r[s.len() as int] == k);
        if s.contains(id) {
            let i = choose|i: int| 0 <= i < s.len() && s[i] == id;
            assert(r[i] == id);
        }
        if r.contains(id) {
            let i = choose|i: int| 0 <= i < r.len() && r[i] == id;
            if i < s.len() {
                assert(s[i] == id);
            }
        }
        assert forall|i: int, j: int| 0 <= i < j < r.len() implies #[trigger] r[i] != #[trigger] r[j] by {
            assert(r[i] == s[i]);
            if j < s.len() {
                assert(r[j] == s[j]);
            } else {
                assert(s.contains(s[i]));
            }
        }
    }
}

/// The impact of changes reaches one step and no further: an id is impacted
/// exactly if a change is about it, or a task with that id depends on a
/// changed task directly. A task that depends on such a dependent only is
/// not impacted on that account.
pub proof fn lemma_impact_is_one_hop(
    changes: Seq<TaskChangeView>,
    tasks: Seq<TaskView>,
    id: Seq<char>,
)
    ensures
        impacted_ids(changes, tasks).contains(id) <==> (is_changed(changes, id) || has_dependent(
            tasks,
            changed_ids(changes),
            id,
        )),
        distinct(impacted_ids(changes, tasks)),
{
    let changed = changed_ids(changes);
    lemma_changed_ids(changes, id);
    lemma_with_dependents(changed, changed, tasks, id);
}

/// Adding the dependents of `changed` adds exactly their ids.
pub proof fn lemma_with_dependents(
    acc: Seq<Seq<char>>,
    changed: Seq<Seq<char>>,
    tasks: Seq<TaskView>,
    id: Seq<char>,
)
    requires
        distinct(acc),
    ensures
        with_dependents(acc, changed, tasks).contains(id) <==> (acc.contains(id) || has_dependent(
            tasks,
            changed,
            id,
        )),
        distinct(with_dependents(acc, changed, tasks)),
    decreases tasks.len(),
{
    if tasks.len() > 0 {
        let rest = tasks.drop_last();
        let last = tasks.last();
        lemma_with_dependents(acc, changed, rest, id);
        let before = with_dependents(acc, changed, rest);
        lemma_with_member(before, last.id, id);
        if has_dependent(rest, changed, id) {
            let k = choose|k: int|
                0 <= k < rest.len() && (#[trigger] rest[k]).id == id && depends_on_any(
                    rest[k],
                    changed,
                );
            assert(tasks[k] == rest[k]);
        }
        if has_dependent(tasks, changed, id) {
            let k = choose|k: int|
                0 <= k < tasks.len() && (#[trigger] tasks[k]).id == id && depends_on_any(
                    tasks[k],
                    changed,
                );
            if k < rest.len() {
                assert(rest[k] == tasks[k]);
            }
        }
        if depends_on_any(last, changed) && last.id == id {
            assert(tasks[tasks.len() - 1] == last);
        }
    }
}

} // verus!
