use vstd::prelude::*;

verus! {

/// The abstract value of a task.
pub struct TaskView {
    pub id: usize,
    pub description: Seq<char>,
    pub completed: bool,
}

/// A single to-do entry.
#[derive(Debug)]
pub struct Task {
    pub id: usize,
    pub description: String,
    pub completed: bool,
}

impl View for Task {
    type V = TaskView;

    open spec fn view(&self) -> TaskView {
        TaskView { id: self.id, description: self.description@, completed: self.completed }
    }
}

/// The abstract value of a sequence of tasks.
pub open spec fn tasks_view(s: Seq<Task>) -> Seq<TaskView> {
    s.map_values(|t: Task| t@)
}

impl Task {
    /// A fresh, not yet completed task.
    pub fn new(id: usize, description: String) -> (r: Task)
        ensures
            r@ == (TaskView { id, description: description@, completed: false }),
    {
        Task { id, description, completed: false }
    }
}

} // verus!
