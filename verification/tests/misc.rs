use sangam::tasks::executor::execute_task;
use sangam::tasks::task::{Task, TaskType};
use sangam::utils::banner::VERSION;
use sangam::utils::sysinfo::gib_rounded;
use sangam::{short_id, DEFAULT_PORT};

#[test]
fn version_starts_with_a_digit() {
    assert!(VERSION.chars().next().unwrap().is_ascii_digit());
    assert!(VERSION.contains('.'), "expected semver, got `{}`", VERSION);
}

#[test]
fn default_port_is_8080() {
    assert_eq!(DEFAULT_PORT, 8080);
}

#[test]
fn short_id_takes_eight_bytes_when_possible() {
    assert_eq!(short_id("0123456789abcdef"), "01234567");
    assert_eq!(short_id("abc"), "abc");
    assert_eq!(short_id("1234567é"), "1234567é");
}

#[test]
fn execute_task_sums_and_reports_overflow() {
    let r = execute_task(Task { task_id: "t".into(), task_type: TaskType::Sum, numbers: vec![1, 2, 3, 4, 5] });
    assert_eq!((r.task_id.as_str(), r.result, r.status.as_str()), ("t", 15, "completed"));
    let r = execute_task(Task { task_id: "u".into(), task_type: TaskType::Sum, numbers: vec![i32::MIN, -1] });
    assert_eq!((r.result, r.status.as_str()), (0, "integer overflow"));
    let r = execute_task(Task { task_id: "v".into(), task_type: TaskType::Sum, numbers: vec![i32::MAX, 1, -1] });
    assert_eq!((r.result, r.status.as_str()), (i32::MAX, "completed"));
}

#[test]
fn ram_is_rounded_to_the_nearest_gib() {
    let gib = 1u64 << 30;
    assert_eq!(gib_rounded(0), 0);
    assert_eq!(gib_rounded(gib / 2 - 1), 0);
    assert_eq!(gib_rounded(gib / 2), 1);
    assert_eq!(gib_rounded(16 * gib), 16);
    assert_eq!(gib_rounded(16 * gib + gib / 2), 17);
}
