//! The task payload a node sends to a worker.

use vstd::prelude::*;

verus! {

/// The kinds of computation a worker knows how to run.
#[derive(Clone, Copy, Debug, PartialEq, Eq, Structural)]
pub enum TaskType {
    /// Add up all input numbers.
    Sum,
}

/// A unit of work: an identifier, the computation, and its inputs.
#[derive(Clone, Debug, PartialEq, Eq)]
pub struct Task {
    pub task_id: String,
    pub task_type: TaskType,
    pub numbers: Vec<i32>,
}

/// The mathematical content of a [`Task`].
pub struct TaskView {
    pub task_id: Seq<char>,
    pub task_type: TaskType,
    pub numbers: Seq<i32>,
}

impl View for Task {
    type V = TaskView;

    open spec fn view(&self) -> TaskView {
        TaskView { task_id: self.task_id@, task_type: self.task_type, numbers: self.numbers@ }
    }
}

/// The human-readable tag of a task type, as recorded by the tracker.
pub open spec fn spec_type_label(t: TaskType) -> Seq<char> {
    match t {
        TaskType::Sum => seq!['S', 'u', 'm'],
    }
}

impl TaskType {
    /// The tag under which tasks of this type are tracked (`"Sum"`).
    pub fn label(&self) -> (s: String)
        ensures
            s@ == spec_type_label(*self),
    {
        match self {
            TaskType::Sum => {
                let s = crate::text::owned("Sum");
                proof {
                    reveal_strlit("Sum");
                }
                s
            },
        }
    }
}

} // verus!
