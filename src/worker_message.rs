//! Messages exchanged between task clients, controllers and worker processes.

use vstd::prelude::*;
use crate::text::str_eq;
use crate::task_io::MessageKind;

verus! {

/// The free-form structured part of a message, carried through unread.
#[verifier::external_type_specification]
#[verifier::external_body]
pub struct ExValue(serde_json::Value);

/// Where a worker message is headed.
#[derive(Clone, Copy, PartialEq, Eq, Structural, Debug)]
pub enum Dest {
    Controller,
    Client,
    Worker,
    ExternalIn,
    ExternalOut,
    Unknown,
}

pub open spec fn dest_name(d: Dest) -> Seq<char> {
    match d {
        Dest::Controller => "controller"@,
        Dest::Client => "client"@,
        Dest::Worker => "worker"@,
        Dest::ExternalIn => "external_in"@,
        Dest::ExternalOut => "external_out"@,
        Dest::Unknown => "unknown"@,
    }
}

pub open spec fn dest_of(s: Seq<char>) -> Dest {
    if s == "controller"@ {
        Dest::Controller
    } else if s == "client"@ {
        Dest::Client
    } else if s == "worker"@ {
        Dest::Worker
    } else if s == "external_in"@ {
        Dest::ExternalIn
    } else if s == "external_out"@ {
        Dest::ExternalOut
    } else {
        Dest::Unknown
    }
}

impl Dest {
    pub fn from_str(s: &str) -> (r: Self)
        ensures
            r == dest_of(s@),
    {
        if str_eq(s, "controller") {
            Dest::Controller
        } else if str_eq(s, "client") {
            Dest::Client
        } else if str_eq(s, "worker") {
            Dest::Worker
        } else if str_eq(s, "external_in") {
            Dest::ExternalIn
        } else if str_eq(s, "external_out") {
            Dest::ExternalOut
        } else {
            Dest::Unknown
        }
    }

    pub fn as_str(&self) -> (r: &'static str)
        ensures
            r@ == dest_name(*self),
    {
        match self {
            Dest::Controller => "controller",
            Dest::Client => "client",
            Dest::Worker => "worker",
            Dest::ExternalIn => "external_in",
            Dest::ExternalOut => "external_out",
            Dest::Unknown => "unknown",
        }
    }
}

/// Reading a destination back from its wire name gives the same destination.
pub proof fn lemma_dest_name_round_trip(d: Dest)
    ensures
        dest_of(dest_name(d)) == d,
{
    reveal_strlit("controller");
    reveal_strlit("client");
    reveal_strlit("worker");
    reveal_strlit("external_in");
    reveal_strlit("external_out");
    reveal_strlit("unknown");
    assert("controller"@[1] != "client"@[1]);
    assert("worker"@[0] != "controller"@[0]);
    assert("worker"@[0] != "client"@[0]);
    assert("external_in"@.len() != "external_out"@.len());
    assert("external_in"@[0] != "controller"@[0]);
    assert("external_in"@[0] != "client"@[0]);
    assert("external_in"@[0] != "worker"@[0]);
    assert("external_out"@[0] != "controller"@[0]);
    assert("external_out"@[0] != "client"@[0]);
    assert("external_out"@[0] != "worker"@[0]);
}

/// The body of a worker message as it travels on the wire.
pub struct WorkerMessagePayload {
    pub dest: Dest,
    pub worker_id: String,
    pub task_uuid: String,
    pub plugin: String,
    pub data: serde_json::Value,
}

/// A worker message with the transport identity of the peer it came from or
/// goes to.
pub struct WorkerMessage {
    pub identity: Vec<u8>,
    pub payload: WorkerMessagePayload,
}

/// A worker message as a value: its identity bytes and its payload.
pub struct MessageView {
    pub identity: Seq<u8>,
    pub payload: WorkerMessagePayload,
}

impl View for WorkerMessage {
    type V = MessageView;

    open spec fn view(&self) -> MessageView {
        MessageView { identity: self.identity@, payload: self.payload }
    }
}

impl MessageView {
    /// The task the message belongs to.
    pub open spec fn task(self) -> Seq<char> {
        self.payload.task_uuid@
    }

    /// The plugin the message asks for.
    pub open spec fn plugin(self) -> Seq<char> {
        self.payload.plugin@
    }
}

impl WorkerMessage {
    pub fn new(payload: WorkerMessagePayload) -> (r: Self)
        ensures
            r.identity@.len() == 0,
            r.payload == payload,
    {
        WorkerMessage { identity: Vec::new(), payload }
    }

    pub fn with_identity(identity: Vec<u8>, payload: WorkerMessagePayload) -> (r: Self)
        ensures
            r.identity == identity,
            r.payload == payload,
    {
        WorkerMessage { identity, payload }
    }
}

/// Whether a JSON value is an object with a field named `key`.
pub uninterp spec fn has_field(data: serde_json::Value, key: Seq<char>) -> bool;

/// Relies on `serde_json::Value::get` with a `&str` index: `Some` exactly
/// when the value is an object that has a field `key`.
#[verifier::external_body]
fn data_has_field(data: &serde_json::Value, key: &str) -> (r: bool)
    ensures
        r == has_field(*data, key@),
{
    data.get(key).is_some()
}

/// What the data of a message carries, looked for in this order: a task
/// result, a task question, an error.
pub open spec fn kind_of(data: serde_json::Value) -> MessageKind {
    if has_field(data, "task_result"@) {
        MessageKind::TaskResult
    } else if has_field(data, "task_question"@) {
        MessageKind::TaskQuestion
    } else if has_field(data, "error"@) {
        MessageKind::Error
    } else {
        MessageKind::Other
    }
}

impl WorkerMessage {
    /// Whether the message carries a task result.
    pub fn result(&self) -> (r: bool)
        ensures
            r == has_field(self.payload.data, "task_result"@),
    {
        data_has_field(&self.payload.data, "task_result")
    }

    /// Whether the message carries an error.
    pub fn error(&self) -> (r: bool)
        ensures
            r == has_field(self.payload.data, "error"@),
    {
        data_has_field(&self.payload.data, "error")
    }

    /// Whether the message carries a task question.
    pub fn question(&self) -> (r: bool)
        ensures
            r == has_field(self.payload.data, "task_question"@),
    {
        data_has_field(&self.payload.data, "task_question")
    }

    /// What the message carries.
    pub fn kind(&self) -> (r: MessageKind)
        ensures
            r == kind_of(self.payload.data),
    {
        if self.result() {
            MessageKind::TaskResult
        } else if self.question() {
            MessageKind::TaskQuestion
        } else if self.error() {
            MessageKind::Error
        } else {
            MessageKind::Other
        }
    }
}

/// Copies an identity.
pub fn copy_bytes(v: &Vec<u8>) -> (r: Vec<u8>)
    ensures
        r@ == v@,
{
    let r = v.clone();
    assert(r@ =~= v@);
    r
}

/// The views of a sequence of messages.
pub open spec fn views(ms: Seq<WorkerMessage>) -> Seq<MessageView> {
    ms.map_values(|m: WorkerMessage| m@)
}

} // verus!
