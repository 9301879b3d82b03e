//! The task record and its mathematical value.

use vstd::prelude::*;

verus! {

/// The value of a task: the two texts it carries.
pub struct TaskView {
    /// The identifier under which the task is stored and removed.
    pub id: Seq<char>,
    /// The label that the caller supplied.
    pub name: Seq<char>,
}

/// One to-do item. Neither field changes once the task exists.
#[derive(Debug)]
pub struct Task {
    id: String,
    name: String,
}

impl View for Task {
    type V = TaskView;

    closed spec fn view(&self) -> TaskView {
        TaskView { id: self.id@, name: self.name@ }
    }
}

impl Task {
    /// Builds the task with the given identifier and label. Any text is
    /// accepted for either, the empty one included.
    pub fn new(id: String, name: String) -> (task: Task)
        ensures
            task@ == (TaskView { id: id@, name: name@ }),
    {
        Task { id, name }
    }

    /// The task's identifier.
    pub fn id(&self) -> (id: &str)
        ensures
            id@ == self@.id,
    {
        self.id.as_str()
    }

    /// The task's label.
    pub fn name(&self) -> (name: &str)
        ensures
            name@ == self@.name,
    {
        self.name.as_str()
    }
}

impl Clone for Task {
    /// The copy carries the same identifier and the same label.
    fn clone(&self) -> (copy: Task)
        ensures
            copy@ == self@,
    {
        Task { id: self.id.clone(), name: self.name.clone() }
    }
}

} // verus!
