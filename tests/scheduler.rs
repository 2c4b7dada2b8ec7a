use i3status_rs::scheduler::UpdateScheduler;

#[test]
fn new_schedules_every_block_now() {
    let s = UpdateScheduler::new(3, 500);
    assert_eq!(s.time_to_next_update(500), Some(0));
    assert_eq!(s.time_to_next_update(400), Some(100));
}

#[test]
fn empty_schedule_has_no_wake() {
    let s = UpdateScheduler::new(0, 0);
    assert_eq!(s.time_to_next_update(0), None);
}

#[test]
fn wake_is_least_time_left() {
    let mut s = UpdateScheduler::new(0, 0);
    s.push(0, 5_000);
    s.push(1, 2_000);
    s.push(2, 9_000);
    assert_eq!(s.time_to_next_update(1_000), Some(1_000));
}

#[test]
fn wake_is_zero_when_a_task_is_due() {
    let mut s = UpdateScheduler::new(0, 0);
    s.push(0, 5_000);
    s.push(1, 2_000);
    assert_eq!(s.time_to_next_update(2_000), Some(0));
    assert_eq!(s.time_to_next_update(3_000), Some(0));
    assert_eq!(s.time_to_next_update(1_999), Some(1));
}

#[test]
fn push_replaces_earlier_deadline() {
    let mut s = UpdateScheduler::new(0, 0);
    s.push(4, 1_000);
    s.push(4, 7_000);
    assert_eq!(s.time_to_next_update(0), Some(7_000));
    let due = s.take_due(7_000);
    assert_eq!(due, vec![4]);
    assert_eq!(s.time_to_next_update(7_000), None);
}

#[test]
fn pop_excludes_deadline_of_block() {
    let mut s = UpdateScheduler::new(0, 0);
    s.push(0, 1_000);
    s.push(1, 4_000);
    s.pop(0);
    assert_eq!(s.time_to_next_update(0), Some(4_000));
    s.pop(1);
    assert_eq!(s.time_to_next_update(0), None);
}

#[test]
fn pop_of_absent_block_changes_nothing() {
    let mut s = UpdateScheduler::new(0, 0);
    s.push(0, 1_000);
    s.pop(9);
    assert_eq!(s.time_to_next_update(0), Some(1_000));
}

#[test]
fn take_due_removes_only_due_tasks() {
    let mut s = UpdateScheduler::new(0, 0);
    s.push(0, 1_000);
    s.push(1, 4_000);
    s.push(2, 500);
    let due = s.take_due(1_000);
    assert_eq!(due, vec![0, 2]);
    assert_eq!(s.time_to_next_update(1_000), Some(3_000));
}
