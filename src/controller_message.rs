//! The subjects of messages between a controller and its worker process.

use vstd::prelude::*;
use crate::text::str_eq;

verus! {

/// The subject of a controller message; any other name is a custom subject.
#[derive(PartialEq, Eq, Debug)]
pub enum Subject {
    /// The worker has started.
    Started,
    /// The worker is ready to execute a new task.
    Ready,
    /// The worker has prepared the requested plugin.
    PluginReady,
    /// An error occurred.
    Error,
    /// Sent periodically to the worker.
    HeartbeatRequest,
    /// The worker's answer: it is alive.
    HeartbeatResponse,
    ControlRequest,
    ControlResponse,
    Custom(String),
}

/// The wire name of a subject.
pub open spec fn subject_name(s: Subject) -> Seq<char> {
    match s {
        Subject::Started => "started"@,
        Subject::Ready => "ready"@,
        Subject::PluginReady => "plugin_ready"@,
        Subject::Error => "error"@,
        Subject::HeartbeatRequest => "heartbeat_request"@,
        Subject::HeartbeatResponse => "heartbeat_response"@,
        Subject::ControlRequest => "control_request"@,
        Subject::ControlResponse => "control_response"@,
        Subject::Custom(c) => c@,
    }
}

/// The subject that a wire name selects, as a subject name view: the known
/// subjects by their names, every other name as itself.
pub open spec fn known_subject(s: Seq<char>) -> Option<Subject> {
    if s == "started"@ {
        Some(Subject::Started)
    } else if s == "ready"@ {
        Some(Subject::Ready)
    } else if s == "plugin_ready"@ {
        Some(Subject::PluginReady)
    } else if s == "error"@ {
        Some(Subject::Error)
    } else if s == "heartbeat_request"@ {
        Some(Subject::HeartbeatRequest)
    } else if s == "heartbeat_response"@ {
        Some(Subject::HeartbeatResponse)
    } else if s == "control_request"@ {
        Some(Subject::ControlRequest)
    } else if s == "control_response"@ {
        Some(Subject::ControlResponse)
    } else {
        None
    }
}

impl Subject {
    pub fn from_str(s: &str) -> (r: Self)
        ensures
            match known_subject(s@) {
                Some(k) => r == k,
                None => r matches Subject::Custom(c) && c@ == s@,
            },
    {
        if str_eq(s, "started") {
            Subject::Started
        } else if str_eq(s, "ready") {
            Subject::Ready
        } else if str_eq(s, "plugin_ready") {
            Subject::PluginReady
        } else if str_eq(s, "error") {
            Subject::Error
        } else if str_eq(s, "heartbeat_request") {
            Subject::HeartbeatRequest
        } else if str_eq(s, "heartbeat_response") {
            Subject::HeartbeatResponse
        } else if str_eq(s, "control_request") {
            Subject::ControlRequest
        } else if str_eq(s, "control_response") {
            Subject::ControlResponse
        } else {
            Subject::Custom(String::from_str(s))
        }
    }

    pub fn as_str(&self) -> (r: String)
        ensures
            r@ == subject_name(*self),
    {
        match self {
            Subject::Started => String::from_str("started"),
            Subject::Ready => String::from_str("ready"),
            Subject::PluginReady => String::from_str("plugin_ready"),
            Subject::Error => String::from_str("error"),
            Subject::HeartbeatRequest => String::from_str("heartbeat_request"),
            Subject::HeartbeatResponse => String::from_str("heartbeat_response"),
            Subject::ControlRequest => String::from_str("control_request"),
            Subject::ControlResponse => String::from_str("control_response"),
            Subject::Custom(c) => c.clone(),
        }
    }
}

} // verus!
