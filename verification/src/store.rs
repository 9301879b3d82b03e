//! The registry itself: the live tasks, each under its identifier.
//!
//! Every operation that changes the registry takes it by `&mut`: what it
//! promises is stated of the registry before and after the call, and holds
//! because nobody else touches the registry in between. Callers that share a
//! registry arrange the turns themselves.

use crate::ident::{is_id_text, random_id};
use crate::listing::{is_listing, lemma_listing_counts_live, views_of, LiveTasks};
use crate::shared_map::{copy_of, empty_map, entries_of, into_pairs, put, take_out, wipe};
use crate::task::{Task, TaskView};
use dashmap::DashMap;
use vstd::prelude::*;

verus! {

/// The label of each stored task, under the key it is stored at.
spec fn labels_of(entries: Map<Seq<char>, TaskView>) -> LiveTasks {
    entries.map_values(|task: TaskView| task.name)
}

/// The registry of live tasks.
///
/// Its value is the map from each live identifier to the label of its task.
#[derive(Debug)]
pub struct TODO {
    tasks: DashMap<String, Task>,
}

impl View for TODO {
    type V = LiveTasks;

    closed spec fn view(&self) -> LiveTasks {
        labels_of(entries_of(self.tasks))
    }
}

impl Clone for TODO {
    /// A second registry with a copy of every live task.
    fn clone(&self) -> (copy: TODO)
        ensures
            copy@ == self@,
            self.wf() ==> copy.wf(),
    {
        TODO { tasks: copy_of(&self.tasks) }
    }
}

impl TODO {
    /// The registry's invariant: it holds finitely many tasks, each stored
    /// under its own identifier.
    pub closed spec fn wf(&self) -> bool {
        &&& entries_of(self.tasks).dom().finite()
        &&& forall|key: Seq<char>| #[trigger]
            entries_of(self.tasks).contains_key(key) ==> entries_of(self.tasks)[key].id == key
    }

    /// A registry that meets its invariant has finitely many live tasks.
    pub proof fn lemma_live_tasks_are_finite(&self)
        requires
            self.wf(),
        ensures
            self@.dom().finite(),
    {
        assert(self@.dom() =~= entries_of(self.tasks).dom());
    }

    /// A registry without tasks.
    pub fn new() -> (store: TODO)
        ensures
            store.wf(),
            store@ == LiveTasks::empty(),
    {
        let tasks = empty_map();
        assert(labels_of(entries_of(tasks)) =~= LiveTasks::empty());
        TODO { tasks }
    }

    /// Stores a new task with the label `name` under a freshly drawn
    /// identifier and returns a copy of it. No label is refused.
    ///
    /// The identifier is random and is not compared with the live ones: if it
    /// were live already, the new task would take the place of the old one.
    pub fn add(&mut self, name: String) -> (task: Task)
        requires
            old(self).wf(),
        ensures
            final(self).wf(),
            task@.name == name@,
            is_id_text(task@.id),
            final(self)@ == old(self)@.insert(task@.id, name@),
            !old(self)@.contains_key(task@.id) ==> final(self)@.len() == old(self)@.len() + 1,
    {
        let id = random_id();
        self.add_with_id(id, name)
    }

    /// Stores a new task with the label `name` under the identifier `id` and
    /// returns a copy of it. A task that was live under `id` is replaced.
    pub fn add_with_id(&mut self, id: String, name: String) -> (task: Task)
        requires
            old(self).wf(),
        ensures
            final(self).wf(),
            task@ == (TaskView { id: id@, name: name@ }),
            final(self)@ == old(self)@.insert(id@, name@),
            !old(self)@.contains_key(id@) ==> final(self)@.len() == old(self)@.len() + 1,
    {
        proof {
            old(self).lemma_live_tasks_are_finite();
        }
        let task = Task::new(id.clone(), name);
        put(&mut self.tasks, id, task.clone());
        assert(labels_of(entries_of(self.tasks)) =~= labels_of(entries_of(old(self).tasks)).insert(
            id@,
            name@,
        ));
        task
    }

    /// A snapshot of the registry: a copy of every live task, each once, in
    /// no particular order.
    pub fn all(&self) -> (tasks: Vec<Task>)
        requires
            self.wf(),
        ensures
            is_listing(self@, views_of(tasks@)),
            tasks@.len() == self@.len(),
    {
        let pairs = into_pairs(copy_of(&self.tasks));
        let ghost stored = pairs@;
        let mut tasks: Vec<Task> = Vec::new();
        for pair in it: pairs
            invariant
                it.seq() == stored,
                tasks@.len() == it.index(),
                forall|j: int| 0 <= j < tasks@.len() ==> (#[trigger] tasks@[j])@ == stored[j].1@,
        {
            tasks.push(pair.1);
        }
        proof {
            let entries = entries_of(self.tasks);
            let listing = views_of(tasks@);
            assert forall|i: int| 0 <= i < listing.len() implies listing[i].id == stored[i].0@
                && entries.contains_key(stored[i].0@) && entries[stored[i].0@] == listing[i] by {
                assert(entries.contains_key(stored[i].0@));
            }
            assert forall|id: Seq<char>| #[trigger] self@.contains_key(id) implies exists|i: int|
                0 <= i < listing.len() && listing[i].id == id by {
                assert(entries.contains_key(id));
                let i = choose|i: int| 0 <= i < stored.len() && stored[i].0@ == id;
                assert(listing[i].id == id);
            }
            lemma_listing_counts_live(self@, listing);
        }
        tasks
    }

    /// Removes the task that is live under `id`. Where there is none, the
    /// registry stays as it is.
    pub fn delete(&mut self, id: String)
        requires
            old(self).wf(),
        ensures
            final(self).wf(),
            final(self)@ == old(self)@.remove(id@),
            !old(self)@.contains_key(id@) ==> final(self)@ == old(self)@,
    {
        take_out(&mut self.tasks, &id);
        assert(labels_of(entries_of(self.tasks)) =~= labels_of(entries_of(old(self).tasks)).remove(
            id@,
        ));
        assert(!old(self)@.contains_key(id@) ==> old(self)@.remove(id@) =~= old(self)@);
    }

    /// Removes every task.
    pub fn delete_all(&mut self)
        ensures
            final(self).wf(),
            final(self)@ == LiveTasks::empty(),
    {
        wipe(&mut self.tasks);
        assert(labels_of(entries_of(self.tasks)) =~= LiveTasks::empty());
    }
}

} // verus!
