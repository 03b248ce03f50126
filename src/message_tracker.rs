//! Control requests sent on behalf of a task, waiting for their responses.

use vstd::prelude::*;
use crate::control_message::{ControlCommand, command_of};
use crate::text::{string_set, contains_string, insert_string, remove_string, str_eq};

verus! {

/// The uuids of the requests that wait for a response.
pub struct ControlMessageTracker {
    pub task_uuid: String,
    pub pending: Vec<String>,
}

/// What to do with a request being sent.
#[derive(Clone, Copy, PartialEq, Eq, Structural, Debug)]
pub struct RequestPlan {
    /// The request answers a question: the tracker dismisses the task's
    /// pending question.
    pub dismiss_question: bool,
}

/// What a response means.
#[derive(Clone, Copy, PartialEq, Eq, Structural, Debug)]
pub struct ResponseOutcome {
    /// The response's result is "ok".
    pub success: bool,
}

impl ControlMessageTracker {
    pub open spec fn waiting(&self) -> Set<Seq<char>> {
        string_set(self.pending@)
    }

    pub fn new(task_uuid: String) -> (r: Self)
        ensures
            r.task_uuid == task_uuid,
            r.waiting().is_empty(),
    {
        let r = ControlMessageTracker { task_uuid, pending: Vec::new() };
        assert(r.waiting() =~= Set::empty());
        r
    }

    /// Records request `uuid` as sent. Sending one request twice is an
    /// invariant violation and is not accepted.
    pub fn send_request(&mut self, uuid: String, cmd: &str) -> (r: RequestPlan)
        requires
            !old(self).waiting().contains(uuid@),
        ensures
            final(self).task_uuid == old(self).task_uuid,
            final(self).waiting() == old(self).waiting().insert(uuid@),
            r.dismiss_question == (command_of(cmd@) == ControlCommand::TaskAnswer),
    {
        insert_string(&mut self.pending, uuid);
        RequestPlan { dismiss_question: ControlCommand::from_str(cmd) == ControlCommand::TaskAnswer }
    }

    /// A response to request `uuid` with result `result`: `None` for a
    /// request that is not waiting; otherwise the request stops waiting and
    /// the response is echoed to the center.
    pub fn handle_response(&mut self, uuid: &String, result: &str) -> (r: Option<ResponseOutcome>)
        ensures
            final(self).task_uuid == old(self).task_uuid,
            final(self).waiting() == old(self).waiting().remove(uuid@),
            old(self).waiting().contains(uuid@) ==> r == Some(ResponseOutcome { success: result@ == "ok"@ }),
            !old(self).waiting().contains(uuid@) ==> r is None,
    {
        if !contains_string(&self.pending, uuid) {
            assert(self.waiting() =~= self.waiting().remove(uuid@));
            return None;
        }
        remove_string(&mut self.pending, uuid);
        Some(ResponseOutcome { success: str_eq(result, "ok") })
    }

    /// Requests without a response are kept.
    pub fn clear_unresponded(&mut self)
        ensures
            final(self).task_uuid == old(self).task_uuid,
            final(self).pending == old(self).pending,
    {
    }
}

} // verus!
