//! How a node records the answer to a task it sent.

use vstd::prelude::*;

use crate::models::message::{MessageType, NodeMessage};
use crate::tasks::result::{completed_status, is_completed};
use crate::tasks::task::{spec_type_label, Task};
use crate::tasks::tracker::{
    completed, failed, ids_distinct, recorded, TaskDirection, TaskRecordView, TaskTracker,
};
use crate::text::{opt_view, owned};

verus! {

/// How long (ms) a node waits for a peer's response.
pub const RESPONSE_TIMEOUT_MS: u64 = 10_000;

/// The prefix of the failure reason when the worker reports an error.
pub open spec fn worker_status_prefix() -> Seq<char> {
    "worker status: "@
}

/// The prefix of the failure reason when the peer answers with something
/// other than a result.
pub open spec fn unexpected_variant_prefix() -> Seq<char> {
    "unexpected response variant: "@
}

/// The prefix of the failure reason when the peer cannot be reached.
pub open spec fn connect_failed_prefix() -> Seq<char> {
    "connect failed: "@
}

/// Record a task about to be sent to a peer: `Queued`, outbound, tagged
/// with its type's label and the peer's node id, before any connection
/// is attempted.
pub fn begin_dispatch(tracker: &mut TaskTracker, task: &Task, peer_id: Option<String>)
    ensures
        ids_distinct(final(tracker)@),
        exists|now: u64|
            final(tracker)@ == recorded(
                old(tracker)@,
                task.task_id@,
                spec_type_label(task.task_type),
                TaskDirection::Outbound,
                opt_view(peer_id),
                now,
            ),
{
    let label = task.task_type.label();
    tracker.record_outbound(task.task_id.as_str(), label.as_str(), peer_id);
}

/// Fail a dispatched task whose peer could not be reached; `error` is
/// the reason the connection attempt gave.
pub fn connect_failed(tracker: &mut TaskTracker, task_id: &str, error: &str)
    ensures
        ids_distinct(final(tracker)@),
        exists|now: u64|
            final(tracker)@ == failed(old(tracker)@, task_id@, connect_failed_prefix() + error@, now),
{
    let ghost s0 = tracker@;
    let mut reason = owned("connect failed: ");
    reason.append(error);
    tracker.mark_failed(task_id, reason.as_str());
    let ghost t = choose|t: u64| tracker@ == #[trigger] failed(s0, task_id@, reason@, t);
    assert(reason@ == connect_failed_prefix() + error@);
    assert(tracker@ == failed(s0, task_id@, connect_failed_prefix() + error@, t));
}

/// The text `format!("{:?}", m)` gives for a payload, as written by the
/// derived `Debug` of [`MessageType`].
pub uninterp spec fn debug_text_of(m: MessageType) -> Seq<char>;

/// `format!("{:?}", ..)` of a payload, as derived by `Debug`: the text
/// depends on the payload alone.
#[verifier::external_body]
fn debug_text(m: &MessageType) -> (r: String)
    ensures
        r@ == debug_text_of(*m),
{
    format!("{:?}", m)
}

/// Fail a dispatched task whose peer answered with something other than a
/// result; `detail` is the text of that answer.
pub fn fail_unexpected_reply(tracker: &mut TaskTracker, task_id: &str, detail: &str)
    ensures
        ids_distinct(final(tracker)@),
        exists|now: u64|
            final(tracker)@ == failed(
                old(tracker)@,
                task_id@,
                unexpected_variant_prefix() + detail@,
                now,
            ),
{
    let ghost s0 = tracker@;
    let mut reason = owned("unexpected response variant: ");
    reason.append(detail);
    tracker.mark_failed(task_id, reason.as_str());
    let ghost t = choose|t: u64| tracker@ == #[trigger] failed(s0, task_id@, reason@, t);
    assert(reason@ == unexpected_variant_prefix() + detail@);
    assert(tracker@ == failed(s0, task_id@, unexpected_variant_prefix() + detail@, t));
}

/// Settle an outbound task once its peer answered with `response`.
///
/// A `Result` with status `"completed"` completes the task with the
/// result; a `Result` with any other status fails it with that status;
/// any other answer fails it, naming the unexpected variant.
pub fn settle_outbound(tracker: &mut TaskTracker, task_id: &str, response: &NodeMessage)
    ensures
        match response.message_type {
            MessageType::Result(r) => if r.status@ == completed_status() {
                exists|now: u64|
                    final(tracker)@ == #[trigger] completed(
                        old(tracker)@,
                        task_id@,
                        r.result as i64,
                        now,
                    )
            } else {
                exists|now: u64|
                    final(tracker)@ == failed(
                        old(tracker)@,
                        task_id@,
                        worker_status_prefix() + r.status@,
                        now,
                    )
            },
            _ => exists|now: u64|
                final(tracker)@ == failed(
                    old(tracker)@,
                    task_id@,
                    unexpected_variant_prefix() + debug_text_of(response.message_type),
                    now,
                ),
        },
        ids_distinct(final(tracker)@),
{
    let ghost s0 = tracker@;
    match &response.message_type {
        MessageType::Result(result) => {
            if is_completed(result) {
                tracker.mark_completed(task_id, result.result as i64);
                let ghost t = choose|t: u64|
                    tracker@ == #[trigger] completed(s0, task_id@, result.result as i64, t);
                assert(tracker@ == completed(s0, task_id@, result.result as i64, t));
            } else {
                let mut reason = owned("worker status: ");
                reason.append(result.status.as_str());
                tracker.mark_failed(task_id, reason.as_str());
                let ghost t = choose|t: u64| tracker@ == #[trigger] failed(s0, task_id@, reason@, t);
                assert(reason@ == worker_status_prefix() + result.status@);
                assert(tracker@ == failed(s0, task_id@, worker_status_prefix() + result.status@, t));
            }
        },
        other => {
            let detail = debug_text(other);
            fail_unexpected_reply(tracker, task_id, detail.as_str());
        },
    }
}

} // verus!
