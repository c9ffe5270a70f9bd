//! The local task list as it was read: the tasks of each tag.

use crate::models::task::{
    clone_tasks, TaggedTasks, Task, TaskView, TaskmasterFile, TaskmasterTasks,
};
use crate::strmap::{lookup, StrMap};
use crate::text::{concat2, owned};
use vstd::prelude::*;

pub mod format;

verus! {

/// The tasks of all tags, one tag after the other.
pub open spec fn all_tasks_of(tags: Seq<(Seq<char>, Seq<TaskView>)>) -> Seq<TaskView>
    decreases tags.len(),
{
    if tags.len() == 0 {
        Seq::empty()
    } else {
        all_tasks_of(tags.drop_last()) + tags.last().1
    }
}

/// Where the task list of a project is kept.
pub open spec fn tasks_path_of(project_root: Seq<char>) -> Seq<char> {
    project_root + "/.taskmaster/tasks/tasks.json"@
}

/// The keeper of the local task list.
pub struct TaskMasterReader {
    tasks_path: String,
    tasks: StrMap<TaggedTasks>,
}

impl TaskMasterReader {
    /// Where the task list is kept.
    pub closed spec fn path(&self) -> Seq<char> {
        self.tasks_path@
    }

    /// The tasks by tag, as they were last loaded.
    pub closed spec fn tags(&self) -> Seq<(Seq<char>, Seq<TaskView>)> {
        self.tasks.pairs()
    }

    /// A reader for the project at `project_root` that has loaded nothing yet.
    pub fn new(project_root: &str) -> (r: TaskMasterReader)
        ensures
            r.path() == tasks_path_of(project_root@),
            r.tags().len() == 0,
    {
        TaskMasterReader {
            tasks_path: concat2(project_root, "/.taskmaster/tasks/tasks.json"),
            tasks: StrMap::new(),
        }
    }

    /// Where the task list is kept.
    pub fn tasks_path(&self) -> (p: &str)
        ensures
            p@ == self.path(),
    {
        self.tasks_path.as_str()
    }

    /// Takes over the tasks of a file that was read: those of each tag, or,
    /// for a file with one flat list, that list under the tag `master`.
    pub fn load_tasks(&mut self, parsed: TaskmasterFile) -> (r: &StrMap<TaggedTasks>)
        ensures
            final(self).path() == old(self).path(),
            final(self).tags() == match parsed.tasks {
                TaskmasterTasks::Legacy { tasks } => seq![("master"@, tasks.deep_view())],
                TaskmasterTasks::Tagged(map) => map.pairs(),
            },
            r.pairs() == final(self).tags(),
    {
        let map = match parsed.tasks {
            TaskmasterTasks::Legacy { tasks } => {
                let mut map: StrMap<TaggedTasks> = StrMap::new();
                proof {
                    crate::strmap::lemma_key_index(map.pairs(), "master"@);
                }
                let ghost tv = tasks.deep_view();
                map.insert(owned("master"), TaggedTasks { tasks, metadata: None });
                assert(map.pairs() =~= seq![("master"@, tv)]);
                map
            },
            TaskmasterTasks::Tagged(map) => map,
        };
        self.tasks = map;
        &self.tasks
    }

    /// The tasks by tag, as they were last loaded.
    pub fn tasks(&self) -> (r: &StrMap<TaggedTasks>)
        ensures
            r.pairs() == self.tags(),
    {
        &self.tasks
    }

    /// The tasks of a tag, if the list has the tag.
    pub fn get_tasks_for_tag(&self, tag: &str) -> (r: Option<Vec<Task>>)
        ensures
            r.deep_view() == lookup(self.tags(), tag@),
    {
        match self.tasks.get(tag) {
            Some(tagged) => Some(clone_tasks(&tagged.tasks)),
            None => None,
        }
    }

    /// The tasks of all tags, one tag after the other.
    pub fn get_all_tasks(&self) -> (r: Vec<Task>)
        ensures
            r.deep_view() == all_tasks_of(self.tags()),
    {
        let mut r: Vec<Task> = Vec::new();
        let n = self.tasks.len();
        let ghost tags = self.tags();
        let mut i: usize = 0;
        assert(tags.subrange(0, 0) =~= Seq::<(Seq<char>, Seq<TaskView>)>::empty());
        assert(r.deep_view() =~= Seq::<TaskView>::empty());
        while i < n
            invariant
                i <= n,
                n == tags.len(),
                tags == self.tags(),
                r.deep_view() == all_tasks_of(tags.subrange(0, i as int)),
            decreases n - i,
        {
            let tagged = self.tasks.value_at(i);
            proof {
                assert(tags.subrange(0, i + 1).drop_last() =~= tags.subrange(0, i as int));
                assert(tags.subrange(0, i + 1).last() == tags[i as int]);
            }
            let ghost before = r.deep_view();
            let mut k: usize = 0;
            while k < tagged.tasks.len()
                invariant
                    k <= tagged.tasks.len(),
                    r.deep_view() == before + tagged.tasks.deep_view().subrange(0, k as int),
                decreases tagged.tasks.len() - k,
            {
                let ghost cur = r.deep_view();
                r.push(tagged.tasks[k].clone());
                assert(r.deep_view() =~= cur.push(tagged.tasks@[k as int]@));
                assert(r.deep_view() =~= before + tagged.tasks.deep_view().subrange(0, k + 1));
                k = k + 1;
            }
            assert(tagged.tasks.deep_view().subrange(0, k as int) =~= tagged.tasks.deep_view());
            i = i + 1;
        }
        assert(tags.subrange(0, i as int) =~= tags);
        r
    }
}

} // verus!
