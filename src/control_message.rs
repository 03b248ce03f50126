//! Control messages: commands addressed to an entity (a task, the app) and
//! their responses.

use vstd::prelude::*;
use crate::text::str_eq;
use crate::task::random_uuid;

verus! {

/// Whether a control message asks or answers.
#[derive(Clone, Copy, PartialEq, Eq, Structural, Debug)]
pub enum Type {
    Request,
    Response,
    Unknown,
}

pub open spec fn kind_name(t: Type) -> Seq<char> {
    match t {
        Type::Request => "request"@,
        Type::Response => "response"@,
        Type::Unknown => "unknown"@,
    }
}

pub open spec fn type_of(s: Seq<char>) -> Type {
    if s == "request"@ {
        Type::Request
    } else if s == "response"@ {
        Type::Response
    } else {
        Type::Unknown
    }
}

impl Type {
    pub fn from_str(s: &str) -> (r: Self)
        ensures
            r == type_of(s@),
    {
        if str_eq(s, "request") {
            Type::Request
        } else if str_eq(s, "response") {
            Type::Response
        } else {
            Type::Unknown
        }
    }

    pub fn as_str(&self) -> (r: String)
        ensures
            r@ == kind_name(*self),
    {
        match self {
            Type::Request => String::from_str("request"),
            Type::Response => String::from_str("response"),
            Type::Unknown => String::from_str("unknown"),
        }
    }
}

/// Relies on `serde_json::Value::default`: the JSON `null`.
#[verifier::external_body]
fn null_data() -> (r: serde_json::Value) {
    serde_json::Value::default()
}

/// A control message.
pub struct ControlMessage {
    pub uuid: String,
    pub type_: Type,
    /// The addressee: an app id, a task uuid, ...
    pub dest_id: String,
    pub orig_id: String,
    pub cmd: String,
    pub data: serde_json::Value,
}

impl ControlMessage {
    /// Where the message is to be routed: the addressee of a request, the
    /// originator of a response.
    pub fn dest(&self) -> (r: &String)
        requires
            self.type_ != Type::Unknown,
        ensures
            self.type_ == Type::Request ==> r == &self.dest_id,
            self.type_ == Type::Response ==> r == &self.orig_id,
    {
        match self.type_ {
            Type::Request => &self.dest_id,
            _ => &self.orig_id,
        }
    }

    /// A request with a fresh uuid and no data.
    pub fn request(dest_id: &str, orig_id: &str, cmd: &str) -> (r: Self)
        ensures
            r.uuid@.len() == 36,
            r.type_ == Type::Request,
            r.dest_id@ == dest_id@,
            r.orig_id@ == orig_id@,
            r.cmd@ == cmd@,
    {
        Self::request_with_data(dest_id, orig_id, cmd, null_data())
    }

    /// A request with a fresh uuid.
    pub fn request_with_data(dest_id: &str, orig_id: &str, cmd: &str, data: serde_json::Value) -> (r: Self)
        ensures
            r.uuid@.len() == 36,
            r.type_ == Type::Request,
            r.dest_id@ == dest_id@,
            r.orig_id@ == orig_id@,
            r.cmd@ == cmd@,
            r.data == data,
    {
        ControlMessage {
            uuid: random_uuid(),
            type_: Type::Request,
            dest_id: String::from_str(dest_id),
            orig_id: String::from_str(orig_id),
            cmd: String::from_str(cmd),
            data,
        }
    }

    /// The response to this message, carrying `data`.
    pub fn response(self, data: serde_json::Value) -> (r: Self)
        ensures
            r.uuid == self.uuid,
            r.type_ == Type::Response,
            r.dest_id == self.dest_id,
            r.orig_id == self.orig_id,
            r.cmd == self.cmd,
            r.data == data,
    {
        ControlMessage { type_: Type::Response, data, ..self }
    }
}

/// The commands of the control vocabulary.
#[derive(Clone, Copy, PartialEq, Eq, Structural, Debug)]
pub enum ControlCommand {
    /// The task tree stops a task and its children.
    StopTask,
    /// The task tree closes a task once it has finished.
    CloseTask,
    /// The task tree closes a task and starts it again under a new uuid.
    RestartTask,
    /// The tracker dismisses the pending question of a task.
    TaskAnswer,
    /// The tracker replays the cached center messages of a task.
    SendCenterMessages,
    Other,
}

pub open spec fn command_of(s: Seq<char>) -> ControlCommand {
    if s == "stop_task"@ {
        ControlCommand::StopTask
    } else if s == "close_task"@ {
        ControlCommand::CloseTask
    } else if s == "restart_task"@ {
        ControlCommand::RestartTask
    } else if s == "task_answer"@ {
        ControlCommand::TaskAnswer
    } else if s == "send_center_messages"@ {
        ControlCommand::SendCenterMessages
    } else {
        ControlCommand::Other
    }
}

impl ControlCommand {
    pub fn from_str(s: &str) -> (r: Self)
        ensures
            r == command_of(s@),
    {
        if str_eq(s, "stop_task") {
            ControlCommand::StopTask
        } else if str_eq(s, "close_task") {
            ControlCommand::CloseTask
        } else if str_eq(s, "restart_task") {
            ControlCommand::RestartTask
        } else if str_eq(s, "task_answer") {
            ControlCommand::TaskAnswer
        } else if str_eq(s, "send_center_messages") {
            ControlCommand::SendCenterMessages
        } else {
            ControlCommand::Other
        }
    }
}

} // verus!
