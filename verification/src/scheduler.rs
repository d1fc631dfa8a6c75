//! The choice of the next task to run from a CPU's run queue.
//!
//! The run queue keeps its tasks in priority order; the first runnable task
//! that is not an idle task is chosen. The idle task is the fallback when no
//! other task can run.

use vstd::prelude::*;

verus! {

/// What the scheduler needs to know of a task in the run queue.
#[derive(Clone, Copy, Debug, PartialEq, Eq, Structural)]
pub struct TaskSummary {
    /// Whether this is the CPU's idle task.
    pub is_an_idle_task: bool,
    /// Whether the task can run.
    pub is_runnable: bool,
}

/// Whether `t` may be chosen ahead of the idle task.
pub open spec fn eligible(t: TaskSummary) -> bool {
    !t.is_an_idle_task && t.is_runnable
}

/// Returns the index of the task to run next among `tasks` (in run-queue
/// order): the first eligible task, else the last idle task, else none.
pub fn select_next_task(tasks: &[TaskSummary]) -> (r: Option<usize>)
    ensures
        (exists|j: int| 0 <= j < tasks@.len() && eligible(#[trigger] tasks@[j])) ==> (r matches Some(
            i,
        ) && i < tasks@.len() && eligible(tasks@[i as int]) && forall|j: int|
            0 <= j < i ==> !eligible(#[trigger] tasks@[j])),
        !(exists|j: int| 0 <= j < tasks@.len() && eligible(#[trigger] tasks@[j])) ==> ((r is None
            <==> forall|j: int| 0 <= j < tasks@.len() ==> !(#[trigger] tasks@[j]).is_an_idle_task)
            && (r matches Some(i) ==> i < tasks@.len() && tasks@[i as int].is_an_idle_task
            && forall|j: int| i < j < tasks@.len() ==> !(#[trigger] tasks@[j]).is_an_idle_task)),
{
    let mut idle_task_index: Option<usize> = None;
    let mut i: usize = 0;
    while i < tasks.len()
        invariant
            i <= tasks@.len(),
            forall|j: int| 0 <= j < i ==> !eligible(#[trigger] tasks@[j]),
            idle_task_index matches Some(k) ==> k < i && tasks@[k as int].is_an_idle_task
                && forall|j: int| k < j < i ==> !(#[trigger] tasks@[j]).is_an_idle_task,
            idle_task_index is None ==> forall|j: int| 0 <= j < i ==> !(#[trigger] tasks@[j]).is_an_idle_task,
        decreases tasks@.len() - i,
    {
        let t = tasks[i];
        if t.is_an_idle_task {
            // the idle task is skipped, and only chosen if nothing else can run
            idle_task_index = Some(i);
        } else if t.is_runnable {
            return Some(i);
        }
        i = i + 1;
    }
    idle_task_index
}

} // verus!
