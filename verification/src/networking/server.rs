//! What a node answers to an inbound message.

use vstd::prelude::*;

use crate::models::message::{MessageType, NodeMessage};
use crate::tasks::executor::{execute_task, spec_execute};
use crate::tasks::result::{completed_status, is_completed, TaskResult};
use crate::tasks::task::spec_type_label;
use crate::tasks::tracker::{
    completed, failed, has_task, ids_distinct, law_lookup_after_record, law_transitions_read_back,
    lookup, recorded, started, TaskDirection, TaskRecordView, TaskStatus, TaskTracker,
};
use crate::text::owned;

verus! {

/// The prefix of the failure reason recorded when the executor fails.
pub open spec fn executor_status_prefix() -> Seq<char> {
    "executor status: "@
}

/// The tracker after an inbound task ran: recorded as inbound from the
/// sender, moved to `Running`, then to `Completed` with the result or to
/// `Failed` with the executor's status.
pub open spec fn after_inbound(
    s: Seq<TaskRecordView>,
    task_id: Seq<char>,
    task_type: Seq<char>,
    sender: Seq<char>,
    result: i32,
    status: Seq<char>,
    t1: u64,
    t2: u64,
    t3: u64,
) -> Seq<TaskRecordView> {
    let s1 = recorded(s, task_id, task_type, TaskDirection::Inbound, Some(sender), t1);
    let s2 = started(s1, task_id, t2);
    if status == completed_status() {
        completed(s2, task_id, result as i64, t3)
    } else {
        failed(s2, task_id, executor_status_prefix() + status, t3)
    }
}

/// Handle one inbound message and return the reply to send, if any.
///
/// A `Ping` is answered with a `Pong`. A `Task` is recorded in `tracker`
/// as inbound from the sender, executed, settled in the tracker, and
/// answered with its `Result`. Replies carry the node id the request
/// came with. `Pong` and `Result` need no reply and change nothing.
pub fn handle_message(tracker: &mut TaskTracker, message: NodeMessage) -> (reply: Option<
    NodeMessage,
>)
    ensures
        match message.message_type {
            MessageType::Ping => {
                &&& reply matches Some(m) && m.node_id@ == message.node_id@
                    && m.message_type is Pong
                &&& final(tracker)@ == old(tracker)@
            },
            MessageType::Task(t) => {
                let r = spec_execute(t@);
                &&& reply matches Some(m) && m.node_id@ == message.node_id@ && (
                m.message_type matches MessageType::Result(res) && res@ == r)
                &&& exists|t1: u64, t2: u64, t3: u64|
                    final(tracker)@ == #[trigger] after_inbound(
                        old(tracker)@,
                        t.task_id@,
                        spec_type_label(t.task_type),
                        message.node_id@,
                        r.result,
                        r.status,
                        t1,
                        t2,
                        t3,
                    )
            },
            _ => {
                &&& reply is None
                &&& final(tracker)@ == old(tracker)@
            },
        },
        ids_distinct(final(tracker)@),
{
    let NodeMessage { node_id, message_type } = message;
    // Reading the length also establishes that the ids are distinct.
    let _ = tracker.len();
    match message_type {
        MessageType::Ping => Some(NodeMessage { node_id, message_type: MessageType::Pong }),
        MessageType::Pong => None,
        MessageType::Result(_) => None,
        MessageType::Task(task) => {
            let task_id = task.task_id.clone();
            let label = task.task_type.label();
            let ghost s0 = tracker@;
            tracker.record_inbound(task_id.as_str(), label.as_str(), Some(node_id.clone()));
            let ghost t1 = choose|t1: u64|
                tracker@ == recorded(
                    s0,
                    task_id@,
                    label@,
                    TaskDirection::Inbound,
                    Some(node_id@),
                    t1,
                );
            let ghost s1 = tracker@;
            tracker.mark_running(task_id.as_str());
            let ghost t2 = choose|t2: u64| tracker@ == started(s1, task_id@, t2);
            let ghost s2 = tracker@;
            let ghost tv = task@;
            let result = execute_task(task);
            if is_completed(&result) {
                tracker.mark_completed(task_id.as_str(), result.result as i64);
                let ghost t3 = choose|t3: u64|
                    tracker@ == #[trigger] completed(s2, task_id@, result.result as i64, t3);
                assert(task_id@ == tv.task_id);
                assert(label@ == spec_type_label(tv.task_type));
                assert(result.result == spec_execute(tv).result);
                assert(result.status@ == spec_execute(tv).status);
                assert(tracker@ == after_inbound(
                    s0,
                    tv.task_id,
                    spec_type_label(tv.task_type),
                    node_id@,
                    spec_execute(tv).result,
                    spec_execute(tv).status,
                    t1,
                    t2,
                    t3,
                ));
            } else {
                let mut reason = owned("executor status: ");
                reason.append(result.status.as_str());
                tracker.mark_failed(task_id.as_str(), reason.as_str());
                let ghost t3 = choose|t3: u64| tracker@ == failed(s2, task_id@, reason@, t3);
                assert(task_id@ == tv.task_id);
                assert(label@ == spec_type_label(tv.task_type));
                assert(result.result == spec_execute(tv).result);
                assert(result.status@ == spec_execute(tv).status);
                assert(tracker@ == after_inbound(
                    s0,
                    tv.task_id,
                    spec_type_label(tv.task_type),
                    node_id@,
                    spec_execute(tv).result,
                    spec_execute(tv).status,
                    t1,
                    t2,
                    t3,
                ));
            }
            assert(exists|a: u64, b: u64, c: u64|
                tracker@ == #[trigger] after_inbound(
                    s0,
                    tv.task_id,
                    spec_type_label(tv.task_type),
                    node_id@,
                    spec_execute(tv).result,
                    spec_execute(tv).status,
                    a,
                    b,
                    c,
                ));
            Some(NodeMessage { node_id, message_type: MessageType::Result(result) })
        },
    }
}

/// An inbound task is always settled before its result is sent back:
/// reading it back by id gives `Completed` with the result when the
/// executor reported success, and `Failed` with the executor's status
/// otherwise.
pub proof fn law_inbound_task_is_settled(
    s: Seq<TaskRecordView>,
    task_id: Seq<char>,
    task_type: Seq<char>,
    sender: Seq<char>,
    result: i32,
    status: Seq<char>,
    t1: u64,
    t2: u64,
    t3: u64,
)
    requires
        ids_distinct(s),
    ensures
        ({
            let r = lookup(
                after_inbound(s, task_id, task_type, sender, result, status, t1, t2, t3),
                task_id,
            );
            &&& r is Some
            &&& status == completed_status() ==> r.unwrap().status == TaskStatus::Completed
                && r.unwrap().result == Some(result as i64) && r.unwrap().error is None
            &&& status != completed_status() ==> r.unwrap().status == TaskStatus::Failed
                && r.unwrap().error == Some(executor_status_prefix() + status)
        }),
{
    let s1 = recorded(s, task_id, task_type, TaskDirection::Inbound, Some(sender), t1);
    law_lookup_after_record(s, task_id, task_type, TaskDirection::Inbound, Some(sender), t1);
    assert(has_task(s1, task_id)) by {
        if has_task(s, task_id) {
        } else {
            assert(s1[s.len() as int].task_id == task_id);
        }
    }
    law_transitions_read_back(s1, task_id, result as i64, executor_status_prefix() + status, t2);
    let s2 = started(s1, task_id, t2);
    assert(ids_distinct(s2));
    assert(has_task(s2, task_id)) by {
        let i = choose|i: int| 0 <= i < s1.len() && s1[i].task_id == task_id;
        assert(s2[i].task_id == task_id);
    }
    law_transitions_read_back(s2, task_id, result as i64, executor_status_prefix() + status, t3);
}

} // verus!
