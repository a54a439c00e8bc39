use sangam::tasks::tracker::{TaskDirection, TaskStatus, TaskTracker};

#[test]
fn record_outbound_starts_in_queued() {
    let mut t = TaskTracker::new();
    t.record_outbound("t1", "Sum", Some("peer-a".into()));
    let recs = t.list();
    assert_eq!(recs.len(), 1);
    assert_eq!(recs[0].task_id, "t1");
    assert_eq!(recs[0].task_type, "Sum");
    assert_eq!(recs[0].direction, TaskDirection::Outbound);
    assert_eq!(recs[0].status, TaskStatus::Queued);
    assert_eq!(recs[0].peer_id.as_deref(), Some("peer-a"));
    assert!(recs[0].started_at_ms.is_none());
    assert!(recs[0].completed_at_ms.is_none());
}

#[test]
fn record_inbound_carries_owner_peer_id() {
    let mut t = TaskTracker::new();
    t.record_inbound("t2", "Sum", Some("peer-b".into()));
    let recs = t.list();
    assert_eq!(recs[0].direction, TaskDirection::Inbound);
    assert_eq!(recs[0].peer_id.as_deref(), Some("peer-b"));
}

#[test]
fn mark_running_stamps_started_at() {
    let mut t = TaskTracker::new();
    t.record_outbound("t1", "Sum", None);
    t.mark_running("t1");
    let r = &t.list()[0];
    assert_eq!(r.status, TaskStatus::Running);
    assert!(r.started_at_ms.is_some());
}

#[test]
fn mark_running_at_stamps_the_given_time() {
    let mut t = TaskTracker::new();
    t.record_outbound_at("t1", "Sum", None, 100);
    t.mark_running_at("t1", 250);
    let r = &t.list()[0];
    assert_eq!(r.created_at_ms, 100);
    assert_eq!(r.started_at_ms, Some(250));
}

#[test]
fn mark_running_is_idempotent_after_completion() {
    let mut t = TaskTracker::new();
    t.record_outbound("t1", "Sum", None);
    t.mark_completed("t1", 42);
    t.mark_running("t1");
    let r = &t.list()[0];
    assert_eq!(r.status, TaskStatus::Completed);
    assert_eq!(r.result, Some(42));
}

#[test]
fn mark_running_does_not_restamp_a_running_task() {
    let mut t = TaskTracker::new();
    t.record_outbound_at("t1", "Sum", None, 1);
    t.mark_running_at("t1", 2);
    t.mark_running_at("t1", 3);
    assert_eq!(t.list()[0].started_at_ms, Some(2));
}

#[test]
fn mark_completed_attaches_result_and_clears_error() {
    let mut t = TaskTracker::new();
    t.record_outbound("t1", "Sum", None);
    t.mark_failed("t1", "transient blip");
    t.mark_completed("t1", 7);
    let r = &t.list()[0];
    assert_eq!(r.status, TaskStatus::Completed);
    assert_eq!(r.result, Some(7));
    assert!(r.error.is_none());
}

#[test]
fn mark_failed_captures_reason() {
    let mut t = TaskTracker::new();
    t.record_outbound("t1", "Sum", None);
    t.mark_failed("t1", "connection refused");
    let r = &t.list()[0];
    assert_eq!(r.status, TaskStatus::Failed);
    assert_eq!(r.error.as_deref(), Some("connection refused"));
    assert!(r.completed_at_ms.is_some());
}

#[test]
fn mark_methods_are_no_ops_for_unknown_task_id() {
    let mut t = TaskTracker::new();
    t.mark_running("nope");
    t.mark_completed("nope", 0);
    t.mark_failed("nope", "no");
    assert!(t.is_empty());
}

#[test]
fn record_is_idempotent_on_repeated_outbound_calls() {
    let mut t = TaskTracker::new();
    t.record_outbound("t1", "Sum", Some("peer-a".into()));
    t.mark_running("t1");
    t.record_outbound("t1", "Sum", Some("peer-a".into()));
    assert_eq!(t.list()[0].status, TaskStatus::Running);
    assert_eq!(t.len(), 1);
}

#[test]
fn list_orders_most_recent_first() {
    let mut t = TaskTracker::new();
    t.record_outbound_at("old", "Sum", None, 1_000);
    t.record_outbound_at("new", "Sum", None, 1_005);
    let ids: Vec<String> = t.list().into_iter().map(|r| r.task_id).collect();
    assert_eq!(ids, vec!["new", "old"]);
}

#[test]
fn list_keeps_recording_order_for_equal_timestamps() {
    let mut t = TaskTracker::new();
    t.record_outbound_at("a", "Sum", None, 5);
    t.record_outbound_at("b", "Sum", None, 9);
    t.record_outbound_at("c", "Sum", None, 5);
    let ids: Vec<String> = t.list().into_iter().map(|r| r.task_id).collect();
    assert_eq!(ids, vec!["b", "a", "c"]);
}

#[test]
fn status_counts_aggregates_each_state() {
    let mut t = TaskTracker::new();
    t.record_outbound("a", "Sum", None);
    t.record_outbound("b", "Sum", None);
    t.record_outbound("c", "Sum", None);
    t.record_outbound("d", "Sum", None);
    t.mark_running("b");
    t.mark_completed("c", 1);
    t.mark_failed("d", "x");
    let counts = t.status_counts();
    assert_eq!(counts.queued, 1);
    assert_eq!(counts.running, 1);
    assert_eq!(counts.completed, 1);
    assert_eq!(counts.failed, 1);
    assert_eq!(counts.queued + counts.running + counts.completed + counts.failed, t.len());
}

#[test]
fn default_tracker_is_empty() {
    let t = TaskTracker::default();
    assert!(t.is_empty());
    assert_eq!(t.status_counts().queued, 0);
}

fn assert_well_formed(t: &TaskTracker) {
    for r in t.list() {
        match r.status {
            TaskStatus::Queued => {
                assert!(r.started_at_ms.is_none() && r.completed_at_ms.is_none());
                assert!(r.result.is_none() && r.error.is_none());
            }
            TaskStatus::Running => {
                assert!(r.started_at_ms.is_some() && r.completed_at_ms.is_none());
                assert!(r.result.is_none() && r.error.is_none());
            }
            TaskStatus::Completed => {
                assert!(r.completed_at_ms.is_some() && r.result.is_some() && r.error.is_none());
            }
            TaskStatus::Failed => {
                assert!(r.completed_at_ms.is_some() && r.error.is_some());
            }
        }
    }
}

#[test]
fn every_record_stays_well_formed_through_transitions() {
    let mut t = TaskTracker::new();
    t.record_outbound("a", "Sum", Some("w".into()));
    t.record_inbound("b", "Sum", Some("o".into()));
    t.record_outbound("c", "Sum", None);
    t.record_outbound("d", "Sum", None);
    assert_well_formed(&t);
    t.mark_running("a");
    t.mark_running("b");
    assert_well_formed(&t);
    t.mark_completed("a", 15);
    t.mark_failed("b", "boom");
    t.mark_completed("c", 3);
    t.mark_failed("c", "late failure");
    t.mark_running("d");
    t.mark_completed("d", 1);
    t.mark_running("d");
    assert_well_formed(&t);
    let counts = t.status_counts();
    assert_eq!(counts.completed, 2);
    assert_eq!(counts.failed, 2);
}
