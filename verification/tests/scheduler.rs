use theseus::scheduler::{select_next_task, TaskSummary};

fn t(is_an_idle_task: bool, is_runnable: bool) -> TaskSummary {
    TaskSummary { is_an_idle_task, is_runnable }
}

#[test]
fn first_runnable_task_is_chosen() {
    let tasks = [t(false, false), t(true, true), t(false, true), t(false, true)];
    assert_eq!(select_next_task(&tasks), Some(2));
}

#[test]
fn idle_task_is_chosen_when_nothing_else_can_run() {
    let tasks = [t(false, false), t(true, true), t(false, false)];
    assert_eq!(select_next_task(&tasks), Some(1));
}

#[test]
fn last_idle_task_wins() {
    let tasks = [t(true, true), t(false, false), t(true, false)];
    assert_eq!(select_next_task(&tasks), Some(2));
}

#[test]
fn nothing_to_run() {
    assert_eq!(select_next_task(&[]), None);
    assert_eq!(select_next_task(&[t(false, false)]), None);
}
