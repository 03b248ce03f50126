//! The error policy of one task: how many errors in a row it tolerates
//! before it fails.

use vstd::prelude::*;
use crate::task::TaskStatus;
use crate::worker_message::{WorkerMessage, has_field};

verus! {

/// Error policy parameters; both are 0 by default.
#[derive(Clone, Copy, PartialEq, Eq, Structural, Debug)]
pub struct TaskErrorHandlerParams {
    pub max_errors_then_failure: usize,
    /// Delay before a restart, in milliseconds.
    pub restart_delay: usize,
}

impl TaskErrorHandlerParams {
    pub fn new() -> (r: Self)
        ensures
            r.max_errors_then_failure == 0,
            r.restart_delay == 0,
    {
        TaskErrorHandlerParams { max_errors_then_failure: 0, restart_delay: 0 }
    }
}

/// What a checked message means for the task.
#[derive(Clone, Copy, PartialEq, Eq, Structural, Debug)]
pub struct CheckOutcome {
    /// The message carried an error.
    pub is_error: bool,
    /// The task has failed now: stop it at its controller and stop the client.
    pub stop: bool,
}

/// The error handler of a task.
pub struct TaskErrorHandler {
    pub task_uuid: String,
    pub params: TaskErrorHandlerParams,
    pub failure: bool,
    pub error_counter: usize,
}

impl TaskErrorHandler {
    pub fn new(task_uuid: String, params: TaskErrorHandlerParams) -> (r: Self)
        ensures
            r.task_uuid == task_uuid,
            r.params == params,
            !r.failure,
            r.error_counter == 0,
    {
        TaskErrorHandler { task_uuid, params, failure: false, error_counter: 0 }
    }

    pub fn failure(&self) -> (r: bool)
        ensures
            r == self.failure,
    {
        self.failure
    }

    /// The status a task ends with: failure once it has failed.
    pub fn task_finished_status(&self) -> (r: TaskStatus)
        ensures
            r == (if self.failure { TaskStatus::FinishedFailure } else { TaskStatus::FinishedSuccess }),
    {
        if self.failure {
            TaskStatus::FinishedFailure
        } else {
            TaskStatus::FinishedSuccess
        }
    }

    /// Checks a worker message for an error; see `check_error`.
    pub fn check(&mut self, msg: &WorkerMessage) -> (r: CheckOutcome)
        ensures
            (*final(self), r) == old(self).after_check(has_field(msg.payload.data, "error"@)),
    {
        let has_error = msg.error();
        self.check_error(has_error)
    }

    /// The handler and the outcome after a message with or without an error.
    pub open spec fn after_check(self, has_error: bool) -> (TaskErrorHandler, CheckOutcome) {
        if has_error {
            let counter = if self.error_counter == usize::MAX { usize::MAX } else { (self.error_counter + 1) as usize };
            let stop = counter > self.params.max_errors_then_failure;
            (TaskErrorHandler { error_counter: counter, failure: self.failure || stop, ..self },
                CheckOutcome { is_error: true, stop })
        } else {
            (TaskErrorHandler { error_counter: 0, ..self }, CheckOutcome { is_error: false, stop: false })
        }
    }

    /// Counts an error, or the lack of one. An error raises the counter (it
    /// stays at the largest `usize`); once the counter exceeds the tolerated
    /// number the task fails. A message without an error resets the counter.
    pub fn check_error(&mut self, has_error: bool) -> (r: CheckOutcome)
        ensures
            (*final(self), r) == old(self).after_check(has_error),
    {
        if has_error {
            if self.error_counter < usize::MAX {
                self.error_counter = self.error_counter + 1;
            }
            let stop = self.error_counter > self.params.max_errors_then_failure;
            if stop {
                self.failure = true;
            }
            CheckOutcome { is_error: true, stop }
        } else {
            self.error_counter = 0;
            CheckOutcome { is_error: false, stop: false }
        }
    }
}

} // verus!
