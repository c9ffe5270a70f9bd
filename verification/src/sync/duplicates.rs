//! Remote items that stand for one task several times, and which of them
//! are to go.

use crate::models::github::{ProjectItem, ProjectItemView};
use crate::sync::{item_tm_id, tm_id_of};
use crate::text::str_eq;
use vstd::prelude::*;

verus! {

/// The id of the task that the item names.
pub open spec fn task_of(item: ProjectItemView) -> Option<Seq<char>> {
    tm_id_of(item.field_values)
}

/// How many of the items name the task `id`.
pub open spec fn copies_of(items: Seq<ProjectItemView>, id: Seq<char>) -> nat
    decreases items.len(),
{
    if items.len() == 0 {
        0
    } else {
        copies_of(items.drop_last(), id) + if task_of(items.last()) == Some(id) {
            1nat
        } else {
            0nat
        }
    }
}

/// How many of the items have the title `title`.
pub open spec fn titled_count(items: Seq<ProjectItemView>, title: Seq<char>) -> nat
    decreases items.len(),
{
    if items.len() == 0 {
        0
    } else {
        titled_count(items.drop_last(), title) + if items.last().title == title {
            1nat
        } else {
            0nat
        }
    }
}

/// How many of the items name no task.
pub open spec fn nameless_count(items: Seq<ProjectItemView>) -> nat
    decreases items.len(),
{
    if items.len() == 0 {
        0
    } else {
        nameless_count(items.drop_last()) + if task_of(items.last()) is None {
            1nat
        } else {
            0nat
        }
    }
}

/// An item before position `i` names the same task as the item at `i`.
pub open spec fn is_later_copy(items: Seq<ProjectItemView>, i: int) -> bool {
    task_of(items[i]) is Some && exists|j: int|
        0 <= j < i && task_of(#[trigger] items[j]) == task_of(items[i])
}

/// An item before position `i` has the same title as the item at `i`.
pub open spec fn is_later_title(items: Seq<ProjectItemView>, i: int) -> bool {
    exists|j: int| 0 <= j < i && (#[trigger] items[j]).title == items[i].title
}

/// Some item with the title `title` names a task by an id that is not empty.
pub open spec fn title_is_claimed(items: Seq<ProjectItemView>, title: Seq<char>) -> bool {
    exists|j: int|
        0 <= j < items.len() && (#[trigger] items[j]).title == title && task_of(items[j]) is Some
            && task_of(items[j])->0.len() > 0
}

/// The items up to position `upto` that name a task which an earlier item
/// names already.
pub open spec fn surplus_copies(items: Seq<ProjectItemView>, upto: int) -> Seq<Seq<char>>
    decreases upto,
{
    if upto <= 0 {
        Seq::empty()
    } else {
        let rest = surplus_copies(items, upto - 1);
        if is_later_copy(items, upto - 1) {
            rest.push(items[upto - 1].id)
        } else {
            rest
        }
    }
}

/// The items up to position `upto` that name no task while an item of the
/// same title names one.
pub open spec fn nameless_doubles(items: Seq<ProjectItemView>, upto: int) -> Seq<Seq<char>>
    decreases upto,
{
    if upto <= 0 {
        Seq::empty()
    } else {
        let rest = nameless_doubles(items, upto - 1);
        if task_of(items[upto - 1]) is None && title_is_claimed(items, items[upto - 1].title) {
            rest.push(items[upto - 1].id)
        } else {
            rest
        }
    }
}

/// The items that are to go: of the items that name one task all but the
/// first, then the items that name no task while an item of their title
/// names one. Each list is in the order of the items.
pub open spec fn items_to_delete(items: Seq<ProjectItemView>) -> Seq<Seq<char>> {
    surplus_copies(items, items.len() as int) + nameless_doubles(items, items.len() as int)
}

/// The tasks that several items name and that one of the first `upto` items
/// names first, each with the number of items that name it.
pub open spec fn repeated_ids(items: Seq<ProjectItemView>, upto: int) -> Seq<(Seq<char>, nat)>
    decreases upto,
{
    if upto <= 0 {
        Seq::empty()
    } else {
        let rest = repeated_ids(items, upto - 1);
        let item = items[upto - 1];
        if task_of(item) is Some && !is_later_copy(items, upto - 1) && copies_of(
            items,
            task_of(item)->0,
        ) > 1 {
            rest.push((task_of(item)->0, copies_of(items, task_of(item)->0)))
        } else {
            rest
        }
    }
}

/// The titles that several items have and that one of the first `upto`
/// items has first, each with the number of items that have it.
pub open spec fn repeated_titles(items: Seq<ProjectItemView>, upto: int) -> Seq<(Seq<char>, nat)>
    decreases upto,
{
    if upto <= 0 {
        Seq::empty()
    } else {
        let rest = repeated_titles(items, upto - 1);
        let item = items[upto - 1];
        if !is_later_title(items, upto - 1) && titled_count(items, item.title) > 1 {
            rest.push((item.title, titled_count(items, item.title)))
        } else {
            rest
        }
    }
}

/// What is double among the items of a project.
#[derive(Debug)]
pub struct DuplicateReport {
    pub total_items: usize,
    /// How many items name no task.
    pub without_id: usize,
    /// The tasks that several items name, with the number of items.
    pub by_id: Vec<(String, usize)>,
    /// The titles that several items have, with the number of items.
    pub by_title: Vec<(String, usize)>,
    /// The ids of the items that are to go.
    pub deletions: Vec<String>,
}

/// A list of names and numbers, as plain values.
pub open spec fn counts_view(v: Seq<(String, usize)>) -> Seq<(Seq<char>, nat)> {
    Seq::new(v.len(), |i: int| (v[i].0@, v[i].1 as nat))
}

/// How many of the items name the task `id`.
fn count_copies(items: &[ProjectItem], id: &str) -> (n: usize)
    ensures
        n == copies_of(items.deep_view(), id@),
{
    let ghost all = items.deep_view();
    let mut n: usize = 0;
    let mut i: usize = 0;
    assert(all.subrange(0, 0) =~= Seq::<ProjectItemView>::empty());
    while i < items.len()
        invariant
            i <= items.len(),
            n <= i,
            all == items.deep_view(),
            n == copies_of(all.subrange(0, i as int), id@),
        decreases items.len() - i,
    {
        proof {
            assert(all.subrange(0, i + 1).drop_last() =~= all.subrange(0, i as int));
            assert(all.subrange(0, i + 1).last() == items@[i as int]@);
        }
        match item_tm_id(&items[i]) {
            Some(found) => {
                if str_eq(found.as_str(), id) {
                    n = n + 1;
                }
            },
            None => {},
        }
        i = i + 1;
    }
    assert(all.subrange(0, i as int) =~= all);
    n
}

/// How many of the items have the title `title`.
fn count_titled(items: &[ProjectItem], title: &str) -> (n: usize)
    ensures
        n == titled_count(items.deep_view(), title@),
{
    let ghost all = items.deep_view();
    let mut n: usize = 0;
    let mut i: usize = 0;
    assert(all.subrange(0, 0) =~= Seq::<ProjectItemView>::empty());
    while i < items.len()
        invariant
            i <= items.len(),
            n <= i,
            all == items.deep_view(),
            n == titled_count(all.subrange(0, i as int), title@),
        decreases items.len() - i,
    {
        proof {
            assert(all.subrange(0, i + 1).drop_last() =~= all.subrange(0, i as int));
            assert(all.subrange(0, i + 1).last() == items@[i as int]@);
        }
        if str_eq(items[i].title.as_str(), title) {
            n = n + 1;
        }
        i = i + 1;
    }
    assert(all.subrange(0, i as int) =~= all);
    n
}

/// Whether an item before position `i` names the task `id`.
#[verifier::loop_isolation(false)]
fn named_before(items: &[ProjectItem], i: usize, id: &str) -> (r: bool)
    requires
        i <= items@.len(),
    ensures
        r == exists|j: int| 0 <= j < i && task_of(#[trigger] items.deep_view()[j]) == Some(id@),
{
    let mut j: usize = 0;
    while j < i
        invariant
            j <= i,
            forall|k: int| 0 <= k < j ==> task_of(#[trigger] items.deep_view()[k]) != Some(id@),
        decreases i - j,
    {
        assert(items.deep_view()[j as int] == items@[j as int]@);
        match item_tm_id(&items[j]) {
            Some(found) => {
                if str_eq(found.as_str(), id) {
                    return true;
                }
            },
            None => {},
        }
        j = j + 1;
    }
    false
}

/// Whether an item before position `i` has the title `title`.
#[verifier::loop_isolation(false)]
fn titled_before(items: &[ProjectItem], i: usize, title: &str) -> (r: bool)
    requires
        i <= items@.len(),
    ensures
        r == exists|j: int| 0 <= j < i && (#[trigger] items.deep_view()[j]).title == title@,
{
    let mut j: usize = 0;
    while j < i
        invariant
            j <= i,
            forall|k: int| 0 <= k < j ==> (#[trigger] items.deep_view()[k]).title != title@,
        decreases i - j,
    {
        assert(items.deep_view()[j as int] == items@[j as int]@);
        if str_eq(items[j].title.as_str(), title) {
            return true;
        }
        j = j + 1;
    }
    false
}

/// Whether some item with the title `title` names a task by an id that is
/// not empty.
#[verifier::loop_isolation(false)]
fn claimed(items: &[ProjectItem], title: &str) -> (r: bool)
    ensures
        r == title_is_claimed(items.deep_view(), title@),
{
    let mut j: usize = 0;
    while j < items.len()
        invariant
            j <= items.len(),
            forall|k: int|
                0 <= k < j ==> !((#[trigger] items.deep_view()[k]).title == title@ && task_of(
                    items.deep_view()[k],
                ) is Some && task_of(items.deep_view()[k])->0.len() > 0),
        decreases items.len() - j,
    {
        assert(items.deep_view()[j as int] == items@[j as int]@);
        if str_eq(items[j].title.as_str(), title) {
            match item_tm_id(&items[j]) {
                Some(found) => {
                    if !found.as_str().is_empty() {
                        return true;
                    }
                },
                None => {},
            }
        }
        j = j + 1;
    }
    false
}

/// Finds what is double among the items of a project, and which items are to
/// go so that each task has one item.
pub fn find_duplicates(items: &[ProjectItem]) -> (r: DuplicateReport)
    ensures
        r.total_items == items@.len(),
        r.without_id == nameless_count(items.deep_view()),
        counts_view(r.by_id@) == repeated_ids(items.deep_view(), items@.len() as int),
        counts_view(r.by_title@) == repeated_titles(items.deep_view(), items@.len() as int),
        r.deletions.deep_view() == items_to_delete(items.deep_view()),
{
    let ghost all = items.deep_view();
    let mut without_id: usize = 0;
    let mut by_id: Vec<(String, usize)> = Vec::new();
    let mut by_title: Vec<(String, usize)> = Vec::new();
    let mut copies: Vec<String> = Vec::new();
    let mut doubles: Vec<String> = Vec::new();
    let mut i: usize = 0;
    assert(all.subrange(0, 0) =~= Seq::<ProjectItemView>::empty());
    assert(counts_view(by_id@) =~= Seq::<(Seq<char>, nat)>::empty());
    assert(counts_view(by_title@) =~= Seq::<(Seq<char>, nat)>::empty());
    assert(copies.deep_view() =~= Seq::<Seq<char>>::empty());
    assert(doubles.deep_view() =~= Seq::<Seq<char>>::empty());
    while i < items.len()
        invariant
            i <= items.len(),
            all == items.deep_view(),
            without_id <= i,
            without_id == nameless_count(all.subrange(0, i as int)),
            counts_view(by_id@) == repeated_ids(all, i as int),
            counts_view(by_title@) == repeated_titles(all, i as int),
            copies.deep_view() == surplus_copies(all, i as int),
            doubles.deep_view() == nameless_doubles(all, i as int),
        decreases items.len() - i,
    {
        let item = &items[i];
        proof {
            assert(all.subrange(0, i + 1).drop_last() =~= all.subrange(0, i as int));
            assert(all.subrange(0, i + 1).last() == item@);
            assert(all[i as int] == item@);
        }
        let ghost ids_before = counts_view(by_id@);
        let ghost titles_before = counts_view(by_title@);
        let ghost copies_before = copies.deep_view();
        let ghost doubles_before = doubles.deep_view();
        match item_tm_id(item) {
            Some(id) => {
                if named_before(items, i, id.as_str()) {
                    copies.push(item.id.clone());
                    assert(copies.deep_view() =~= copies_before.push(item@.id));
                } else {
                    let n = count_copies(items, id.as_str());
                    if n > 1 {
                        by_id.push((id, n));
                        assert(counts_view(by_id@) =~= ids_before.push((id@, n as nat)));
                    }
                }
            },
            None => {
                without_id = without_id + 1;
                if claimed(items, item.title.as_str()) {
                    doubles.push(item.id.clone());
                    assert(doubles.deep_view() =~= doubles_before.push(item@.id));
                }
            },
        }
        if !titled_before(items, i, item.title.as_str()) {
            let n = count_titled(items, item.title.as_str());
            if n > 1 {
                by_title.push((item.title.clone(), n));
                assert(counts_view(by_title@) =~= titles_before.push((item@.title, n as nat)));
            }
        }
        i = i + 1;
    }
    assert(all.subrange(0, i as int) =~= all);
    let mut deletions = copies;
    let ghost first = deletions.deep_view();
    let mut k: usize = 0;
    assert(doubles.deep_view().subrange(0, 0) =~= Seq::<Seq<char>>::empty());
    assert(first + Seq::<Seq<char>>::empty() =~= first);
    while k < doubles.len()
        invariant
            k <= doubles.len(),
            deletions.deep_view() == first + doubles.deep_view().subrange(0, k as int),
        decreases doubles.len() - k,
    {
        let ghost before = deletions.deep_view();
        deletions.push(doubles[k].clone());
        assert(deletions.deep_view() =~= before.push(doubles@[k as int]@));
        assert(deletions.deep_view() =~= first + doubles.deep_view().subrange(0, k + 1));
        k = k + 1;
    }
    assert(doubles.deep_view().subrange(0, k as int) =~= doubles.deep_view());
    DuplicateReport { total_items: items.len(), without_id, by_id, by_title, deletions }
}

} // verus!
