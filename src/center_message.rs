//! Messages exchanged with the center.

use vstd::prelude::*;
use crate::text::str_eq;
use crate::task::TaskStatus;
use crate::tracker::TaskUpdateTag;

verus! {

/// Where a center message is headed.
#[derive(Clone, Copy, PartialEq, Eq, Structural, Debug)]
pub enum Dest {
    /// App to center.
    Center,
    /// Center to app.
    App,
    Unknown,
}

pub open spec fn dest_name(d: Dest) -> Seq<char> {
    match d {
        Dest::Center => "center"@,
        Dest::App => "app"@,
        Dest::Unknown => "unknown"@,
    }
}

pub open spec fn dest_of(s: Seq<char>) -> Dest {
    if s == "center"@ {
        Dest::Center
    } else if s == "app"@ {
        Dest::App
    } else {
        Dest::Unknown
    }
}

impl Dest {
    pub fn from_str(s: &str) -> (r: Self)
        ensures
            r == dest_of(s@),
    {
        if str_eq(s, "center") {
            Dest::Center
        } else if str_eq(s, "app") {
            Dest::App
        } else {
            Dest::Unknown
        }
    }

    pub fn as_str(&self) -> (r: &'static str)
        ensures
            r@ == dest_name(*self),
    {
        match self {
            Dest::Center => "center",
            Dest::App => "app",
            Dest::Unknown => "unknown",
        }
    }
}

/// What a center message is about.
#[derive(Clone, Copy, PartialEq, Eq, Structural, Debug)]
pub enum Subject {
    AppStatusReport,
    TaskStatusReport,
    TaskStatusUpdate,
    TaskResult,
    TaskQuestion,
    Control,
    Unknown,
}

pub open spec fn subject_name(s: Subject) -> Seq<char> {
    match s {
        Subject::AppStatusReport => "app_status_report"@,
        Subject::TaskStatusReport => "task_status_report"@,
        Subject::TaskStatusUpdate => "task_status_update"@,
        Subject::TaskResult => "task_result"@,
        Subject::TaskQuestion => "task_question"@,
        Subject::Control => "control"@,
        Subject::Unknown => "unknown"@,
    }
}

pub open spec fn subject_of(s: Seq<char>) -> Subject {
    if s == "app_status_report"@ {
        Subject::AppStatusReport
    } else if s == "task_status_report"@ {
        Subject::TaskStatusReport
    } else if s == "task_status_update"@ {
        Subject::TaskStatusUpdate
    } else if s == "task_result"@ {
        Subject::TaskResult
    } else if s == "task_question"@ {
        Subject::TaskQuestion
    } else if s == "control"@ {
        Subject::Control
    } else {
        Subject::Unknown
    }
}

impl Subject {
    pub fn from_str(s: &str) -> (r: Self)
        ensures
            r == subject_of(s@),
    {
        if str_eq(s, "app_status_report") {
            Subject::AppStatusReport
        } else if str_eq(s, "task_status_report") {
            Subject::TaskStatusReport
        } else if str_eq(s, "task_status_update") {
            Subject::TaskStatusUpdate
        } else if str_eq(s, "task_result") {
            Subject::TaskResult
        } else if str_eq(s, "task_question") {
            Subject::TaskQuestion
        } else if str_eq(s, "control") {
            Subject::Control
        } else {
            Subject::Unknown
        }
    }

    pub fn as_str(&self) -> (r: String)
        ensures
            r@ == subject_name(*self),
    {
        match self {
            Subject::AppStatusReport => String::from_str("app_status_report"),
            Subject::TaskStatusReport => String::from_str("task_status_report"),
            Subject::TaskStatusUpdate => String::from_str("task_status_update"),
            Subject::TaskResult => String::from_str("task_result"),
            Subject::TaskQuestion => String::from_str("task_question"),
            Subject::Control => String::from_str("control"),
            Subject::Unknown => String::from_str("unknown"),
        }
    }
}

/// Relies on `chrono::Utc::now` and `DateTime::timestamp_millis`: the
/// current time in milliseconds since the Unix epoch.
#[verifier::external_body]
fn now_ms() -> (r: i64) {
    chrono::Utc::now().timestamp_millis()
}

/// A center message. `data` is `None` for a message without data, which
/// travels as an empty string.
pub struct CenterMessagePayload {
    pub dest: Dest,
    pub subject: Subject,
    /// The sender: a task uuid, an application id, ...
    pub entity_id: String,
    pub message: String,
    pub data: Option<serde_json::Value>,
    /// Milliseconds since the Unix epoch.
    pub ts: i64,
}

impl CenterMessagePayload {
    /// A message stamped with the current time.
    pub fn create(
        dest: Dest,
        subject: Subject,
        entity_id: String,
        message: String,
        data: Option<serde_json::Value>,
    ) -> (r: Self)
        ensures
            r.dest == dest,
            r.subject == subject,
            r.entity_id == entity_id,
            r.message == message,
            r.data == data,
    {
        CenterMessagePayload { dest, subject, entity_id, message, data, ts: now_ms() }
    }
}

/// A center message without data, stamped with the current time.
pub fn create_no_data(dest: Dest, subject: Subject, entity_id: String, message: String) -> (r: CenterMessagePayload)
    ensures
        r.dest == dest,
        r.subject == subject,
        r.entity_id == entity_id,
        r.message == message,
        r.data is None,
{
    CenterMessagePayload::create(dest, subject, entity_id, message, None)
}

/// The report that a task has been closed.
pub fn send_center_task_closed(task_uuid: &str) -> (r: CenterMessagePayload)
    ensures
        r.dest == Dest::Center,
        r.subject == Subject::TaskStatusUpdate,
        r.entity_id@ == task_uuid@,
        r.message@ == "closed"@,
        r.data is None,
{
    create_no_data(Dest::Center, Subject::TaskStatusUpdate, String::from_str(task_uuid), String::from_str("closed"))
}

/// A center message that also goes to the task tracker, with the status of
/// the task and the tag of the update.
pub struct TrackedUpdate {
    pub payload: CenterMessagePayload,
    pub status: TaskStatus,
    pub tag: TaskUpdateTag,
}

/// A task status update for the center.
pub open spec fn status_update(p: CenterMessagePayload, task_uuid: Seq<char>, message: Seq<char>) -> bool {
    &&& p.dest == Dest::Center
    &&& p.subject == Subject::TaskStatusUpdate
    &&& p.entity_id@ == task_uuid
    &&& p.message@ == message
}

/// The report that a task has started, with its definition as data.
pub fn send_center_task_started(task_uuid: &str, task_definition: serde_json::Value) -> (r: TrackedUpdate)
    ensures
        status_update(r.payload, task_uuid@, "started"@),
        r.payload.data == Some(task_definition),
        r.status == TaskStatus::Running,
        r.tag == TaskUpdateTag::Started,
{
    let payload = CenterMessagePayload::create(
        Dest::Center, Subject::TaskStatusUpdate, String::from_str(task_uuid), String::from_str("started"), Some(task_definition));
    TrackedUpdate { payload, status: TaskStatus::Running, tag: TaskUpdateTag::Started }
}

/// The report that a task has updated its state, with its definition as data.
pub fn send_center_task_updated(task_uuid: &str, task_definition: serde_json::Value) -> (r: TrackedUpdate)
    ensures
        status_update(r.payload, task_uuid@, "updated"@),
        r.payload.data == Some(task_definition),
        r.status == TaskStatus::Running,
        r.tag == TaskUpdateTag::Updated,
{
    let payload = CenterMessagePayload::create(
        Dest::Center, Subject::TaskStatusUpdate, String::from_str(task_uuid), String::from_str("updated"), Some(task_definition));
    TrackedUpdate { payload, status: TaskStatus::Running, tag: TaskUpdateTag::Updated }
}

/// The report that a task has finished, with its outcome.
pub fn send_center_task_finished(task_uuid: &str, status: TaskStatus) -> (r: TrackedUpdate)
    ensures
        status_update(r.payload, task_uuid@,
            if status == TaskStatus::FinishedSuccess { "finished_success"@ } else { "finished_failure"@ }),
        r.payload.data is None,
        r.status == status,
        r.tag == TaskUpdateTag::Finished,
{
    let msg = if status == TaskStatus::FinishedSuccess { "finished_success" } else { "finished_failure" };
    let payload = create_no_data(Dest::Center, Subject::TaskStatusUpdate, String::from_str(task_uuid), String::from_str(msg));
    TrackedUpdate { payload, status, tag: TaskUpdateTag::Finished }
}

/// A question of a running task for the center.
pub fn send_center_task_question(task_uuid: &str, data: serde_json::Value) -> (r: TrackedUpdate)
    ensures
        r.payload.dest == Dest::Center,
        r.payload.subject == Subject::TaskQuestion,
        r.payload.entity_id@ == task_uuid@,
        r.payload.message@ == "task_question"@,
        r.payload.data == Some(data),
        r.status == TaskStatus::Running,
        r.tag == TaskUpdateTag::Question,
{
    let payload = CenterMessagePayload::create(
        Dest::Center, Subject::TaskQuestion, String::from_str(task_uuid), String::from_str("task_question"), Some(data));
    TrackedUpdate { payload, status: TaskStatus::Running, tag: TaskUpdateTag::Question }
}

/// A result of a task for the center; it goes straight to the center.
pub fn send_center_task_result(task_uuid: &str, data: serde_json::Value) -> (r: CenterMessagePayload)
    ensures
        r.dest == Dest::Center,
        r.subject == Subject::TaskResult,
        r.entity_id@ == task_uuid@,
        r.message@ == "task_result"@,
        r.data == Some(data),
{
    CenterMessagePayload::create(Dest::Center, Subject::TaskResult, String::from_str(task_uuid), String::from_str("task_result"), Some(data))
}

} // verus!
