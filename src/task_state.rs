//! The state of a task as it reports it to the center.

use vstd::prelude::*;
use crate::task::TaskStatus;

verus! {

/// A task's status, when it started (milliseconds since the Unix epoch) and
/// what else it reports.
pub struct TaskState<I> {
    pub task_uuid: String,
    pub status: TaskStatus,
    pub started_at: i64,
    pub info: I,
}

/// The status report of a task.
pub struct TaskStatusReport<I> {
    pub task_uuid: String,
    pub status: TaskStatus,
    pub started_at: i64,
    pub info: I,
}

impl<I> TaskState<I> {
    /// The state of a task that has not started.
    pub fn new(info: I, now: i64) -> (r: Self)
        ensures
            r.task_uuid@.len() == 0,
            r.status == TaskStatus::Unknown,
            r.started_at == now,
            r.info == info,
    {
        TaskState { task_uuid: String::new(), status: TaskStatus::Unknown, started_at: now, info }
    }

    /// The task has started, as task `task_uuid`, at `now`.
    pub fn started(&mut self, task_uuid: String, now: i64)
        ensures
            final(self).task_uuid == task_uuid,
            final(self).status == TaskStatus::Running,
            final(self).started_at == now,
            final(self).info == old(self).info,
    {
        self.task_uuid = task_uuid;
        self.status = TaskStatus::Running;
        self.started_at = now;
    }

    /// The report of the current state, with `info` as its reported part.
    pub fn report<J>(&self, info: J) -> (r: TaskStatusReport<J>)
        ensures
            r.task_uuid@ == self.task_uuid@,
            r.status == self.status,
            r.started_at == self.started_at,
            r.info == info,
    {
        TaskStatusReport { task_uuid: self.task_uuid.clone(), status: self.status, started_at: self.started_at, info }
    }
}

} // verus!
