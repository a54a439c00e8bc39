use sangam::models::message::{frame_line, unframe_line, FrameError, MessageType, NodeMessage};
use sangam::networking::client::{
    begin_dispatch, connect_failed, fail_unexpected_reply, settle_outbound,
};
use sangam::networking::server::handle_message;
use sangam::tasks::result::TaskResult;
use sangam::tasks::task::{Task, TaskType};
use sangam::tasks::tracker::{TaskDirection, TaskStatus, TaskTracker};

fn task_request(task_id: &str, numbers: Vec<i32>) -> NodeMessage {
    NodeMessage {
        node_id: "test-client".to_string(),
        message_type: MessageType::Task(Task { task_id: task_id.to_string(), task_type: TaskType::Sum, numbers }),
    }
}

#[test]
fn server_executes_sum_task_and_returns_result() {
    let mut tracker = TaskTracker::new();
    let response = handle_message(&mut tracker, task_request("task-sum-1", vec![10, 20, 30, 40]))
        .expect("a task is answered");
    assert_eq!(response.node_id, "test-client");
    match response.message_type {
        MessageType::Result(result) => {
            assert_eq!(result.task_id, "task-sum-1");
            assert_eq!(result.result, 100);
            assert_eq!(result.status, "completed");
        }
        other => panic!("expected Result variant, got {:?}", other),
    }
    let recs = tracker.list();
    assert_eq!(recs.len(), 1);
    let rec = &recs[0];
    assert_eq!(rec.task_id, "task-sum-1");
    assert_eq!(rec.task_type, "Sum");
    assert_eq!(format!("{:?}", rec.direction), "Inbound", "server-side records are inbound");
    assert_eq!(format!("{:?}", rec.status), "Completed");
    assert_eq!(rec.peer_id.as_deref(), Some("test-client"));
    assert_eq!(rec.result, Some(100));
}

#[test]
fn server_handles_empty_sum_task() {
    let mut tracker = TaskTracker::new();
    let response = handle_message(&mut tracker, task_request("task-empty", vec![])).unwrap();
    if let MessageType::Result(result) = response.message_type {
        assert_eq!(result.result, 0);
    } else {
        panic!("expected Result");
    }
}

#[test]
fn server_handles_negative_sum_task() {
    let mut tracker = TaskTracker::new();
    let response = handle_message(&mut tracker, task_request("task-neg", vec![-5, -10, 3])).unwrap();
    if let MessageType::Result(result) = response.message_type {
        assert_eq!(result.result, -12);
    } else {
        panic!("expected Result");
    }
}

#[test]
fn server_reports_overflowing_sum_as_failed() {
    let mut tracker = TaskTracker::new();
    let response = handle_message(&mut tracker, task_request("big", vec![i32::MAX, 1])).unwrap();
    match response.message_type {
        MessageType::Result(result) => {
            assert_eq!(result.result, 0);
            assert_eq!(result.status, "integer overflow");
        }
        other => panic!("expected Result, got {:?}", other),
    }
    let rec = &tracker.list()[0];
    assert_eq!(rec.status, TaskStatus::Failed);
    assert_eq!(rec.error.as_deref(), Some("executor status: integer overflow"));
}

#[test]
fn server_answers_ping_with_pong() {
    let mut tracker = TaskTracker::new();
    let ping = NodeMessage { node_id: "n1".to_string(), message_type: MessageType::Ping };
    let reply = handle_message(&mut tracker, ping).unwrap();
    assert_eq!(reply, NodeMessage { node_id: "n1".to_string(), message_type: MessageType::Pong });
    assert!(tracker.is_empty());
}

#[test]
fn server_does_not_answer_pong_or_result() {
    let mut tracker = TaskTracker::new();
    let pong = NodeMessage { node_id: "n1".to_string(), message_type: MessageType::Pong };
    assert!(handle_message(&mut tracker, pong).is_none());
    let result = NodeMessage {
        node_id: "n1".to_string(),
        message_type: MessageType::Result(TaskResult { task_id: "t".into(), result: 1, status: "completed".into() }),
    };
    assert!(handle_message(&mut tracker, result).is_none());
    assert!(tracker.is_empty());
}

#[test]
fn send_message_errors_when_peer_closes_without_responding() {
    assert_eq!(unframe_line("", 0), Err(FrameError::PeerClosed));
}

#[test]
fn reply_lines_are_framed_and_unframed() {
    assert_eq!(frame_line("{\"a\":1}"), "{\"a\":1}\n");
    assert_eq!(unframe_line("{\"a\":1}\r\n", 9), Ok("{\"a\":1}"));
}

fn outbound(tracker: &mut TaskTracker) {
    tracker.record_outbound("t1", "Sum", Some("worker".into()));
    tracker.mark_running("t1");
}

#[test]
fn completed_response_completes_the_outbound_task() {
    let mut tracker = TaskTracker::new();
    outbound(&mut tracker);
    let resp = NodeMessage {
        node_id: "worker".into(),
        message_type: MessageType::Result(TaskResult { task_id: "t1".into(), result: 15, status: "completed".into() }),
    };
    settle_outbound(&mut tracker, "t1", &resp);
    let rec = &tracker.list()[0];
    assert_eq!(rec.status, TaskStatus::Completed);
    assert_eq!(rec.result, Some(15));
    assert_eq!(rec.direction, TaskDirection::Outbound);
}

#[test]
fn failed_response_fails_the_outbound_task() {
    let mut tracker = TaskTracker::new();
    outbound(&mut tracker);
    let resp = NodeMessage {
        node_id: "worker".into(),
        message_type: MessageType::Result(TaskResult { task_id: "t1".into(), result: 0, status: "integer overflow".into() }),
    };
    settle_outbound(&mut tracker, "t1", &resp);
    let rec = &tracker.list()[0];
    assert_eq!(rec.status, TaskStatus::Failed);
    assert_eq!(rec.error.as_deref(), Some("worker status: integer overflow"));
}

#[test]
fn unexpected_response_fails_the_outbound_task() {
    let mut tracker = TaskTracker::new();
    outbound(&mut tracker);
    let resp = NodeMessage { node_id: "worker".into(), message_type: MessageType::Pong };
    settle_outbound(&mut tracker, "t1", &resp);
    let rec = &tracker.list()[0];
    assert_eq!(rec.status, TaskStatus::Failed);
    assert_eq!(rec.error.as_deref(), Some("unexpected response variant: Pong"));
}

#[test]
fn unframing_a_framed_line_gives_the_text_back() {
    let text = "{\"node_id\":\"n1\",\"message_type\":\"Ping\"}";
    let line = frame_line(text);
    assert_eq!(unframe_line(&line, line.len()), Ok(text));
}

#[test]
fn unframing_strips_unicode_whitespace_but_not_other_text() {
    assert_eq!(unframe_line("abc\u{3000}\u{2028} \t\n", 12), Ok("abc"));
    assert_eq!(unframe_line("  abc  \n", 8), Ok("  abc"));
    assert_eq!(unframe_line(" \n", 2), Ok(""));
}

#[test]
fn dispatch_is_recorded_queued_with_its_type_label() {
    let mut tracker = TaskTracker::new();
    let task = Task { task_id: "demo-1".into(), task_type: TaskType::Sum, numbers: vec![1, 2] };
    begin_dispatch(&mut tracker, &task, Some("worker".into()));
    let r = &tracker.list()[0];
    assert_eq!(r.task_id, "demo-1");
    assert_eq!(r.task_type, "Sum");
    assert_eq!(r.direction, TaskDirection::Outbound);
    assert_eq!(r.status, TaskStatus::Queued);
    assert_eq!(r.peer_id.as_deref(), Some("worker"));

    connect_failed(&mut tracker, "demo-1", "Connection refused (os error 111)");
    let r = &tracker.list()[0];
    assert_eq!(r.status, TaskStatus::Failed);
    assert_eq!(r.error.as_deref(), Some("connect failed: Connection refused (os error 111)"));
}

#[test]
fn unexpected_reply_names_the_answer_given() {
    let mut tracker = TaskTracker::new();
    outbound(&mut tracker);
    fail_unexpected_reply(&mut tracker, "t1", "Ping");
    let rec = &tracker.list()[0];
    assert_eq!(rec.status, TaskStatus::Failed);
    assert_eq!(rec.error.as_deref(), Some("unexpected response variant: Ping"));
}

#[test]
fn unexpected_task_reply_carries_its_debug_text() {
    let mut tracker = TaskTracker::new();
    outbound(&mut tracker);
    let task = Task { task_id: "x".into(), task_type: TaskType::Sum, numbers: vec![1] };
    let resp = NodeMessage { node_id: "worker".into(), message_type: MessageType::Task(task.clone()) };
    settle_outbound(&mut tracker, "t1", &resp);
    let rec = &tracker.list()[0];
    let expected = format!("unexpected response variant: {:?}", MessageType::Task(task));
    assert_eq!(rec.error.as_deref(), Some(expected.as_str()));
}
