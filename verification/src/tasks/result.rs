//! The outcome a worker sends back after executing a task.

use vstd::prelude::*;

verus! {

/// The outcome of one task execution, produced by the worker node.
///
/// `status` is `"completed"` when `result` holds the computed value;
/// any other status describes why the task could not be completed.
#[derive(Clone, Debug, PartialEq, Eq)]
pub struct TaskResult {
    pub task_id: String,
    pub result: i32,
    pub status: String,
}

/// The mathematical content of a [`TaskResult`].
pub struct TaskResultView {
    pub task_id: Seq<char>,
    pub result: i32,
    pub status: Seq<char>,
}

impl View for TaskResult {
    type V = TaskResultView;

    open spec fn view(&self) -> TaskResultView {
        TaskResultView { task_id: self.task_id@, result: self.result, status: self.status@ }
    }
}

/// The status of a successful execution.
pub open spec fn completed_status() -> Seq<char> {
    seq!['c', 'o', 'm', 'p', 'l', 'e', 't', 'e', 'd']
}

/// Whether `r` reports success.
pub fn is_completed(r: &TaskResult) -> (b: bool)
    ensures
        b == (r.status@ == completed_status()),
{
    let b = crate::text::same_text(&r.status, "completed");
    proof {
        reveal_strlit("completed");
        assert("completed"@ =~= completed_status());
    }
    b
}

} // verus!
